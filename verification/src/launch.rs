//! How the program was started.

use crate::text::{same, starts_with, views};
use vstd::prelude::*;

verus! {

/// Whether a link of the program's own kind is among the arguments.
pub open spec fn opens_link(args: Seq<Seq<char>>) -> bool {
    exists|i: int| 0 <= i < args.len() && "siphon://"@.is_prefix_of(#[trigger] args[i])
}

/// Whether a link of the program's own kind is among the arguments.
pub fn has_deep_link(args: &Vec<String>) -> (r: bool)
    ensures
        r == opens_link(views(args@)),
{
    let ghost v = views(args@);
    let mut i: usize = 0;
    while i < args.len()
        invariant
            i <= args@.len(),
            v == views(args@),
            forall|k: int| 0 <= k < i ==> !"siphon://"@.is_prefix_of(#[trigger] v[k]),
        decreases args.len() - i,
    {
        assert(v[i as int] == args@[i as int]@);
        if starts_with(args[i].as_str(), "siphon://") {
            return true;
        }
        i = i + 1;
    }
    false
}

/// Whether the program was started together with the system.
pub open spec fn is_autostart(args: Seq<Seq<char>>) -> bool {
    args.contains("--autostart"@)
}

/// Whether the program was started together with the system, and begins hidden.
pub fn starts_hidden(args: &Vec<String>) -> (r: bool)
    ensures
        r == is_autostart(views(args@)),
{
    let ghost v = views(args@);
    let mut i: usize = 0;
    while i < args.len()
        invariant
            i <= args@.len(),
            v == views(args@),
            forall|k: int| 0 <= k < i ==> #[trigger] v[k] != "--autostart"@,
        decreases args.len() - i,
    {
        assert(v[i as int] == args@[i as int]@);
        if same(args[i].as_str(), "--autostart") {
            return true;
        }
        i = i + 1;
    }
    false
}

/// The program was started for a link of its own kind exactly where one of its arguments begins
/// with the name of that kind, and together with the system exactly where one of them says so.
pub proof fn arguments_tell_the_start(args: Vec<String>, link: bool, hidden: bool)
    requires
        call_ensures(has_deep_link, (&args,), link),
        call_ensures(starts_hidden, (&args,), hidden),
    ensures
        link <==> exists|i: int|
            0 <= i < args@.len() && "siphon://"@.is_prefix_of((#[trigger] args@[i])@),
        hidden <==> exists|i: int| 0 <= i < args@.len() && (#[trigger] args@[i])@ == "--autostart"@,
{
    let v = views(args@);
    assert(v.len() == args@.len());
    assert forall|i: int| 0 <= i < args@.len() implies (#[trigger] args@[i])@ == v[i] by {}
    if link {
        let i = choose|i: int| 0 <= i < v.len() && "siphon://"@.is_prefix_of(#[trigger] v[i]);
        assert("siphon://"@.is_prefix_of(args@[i]@));
    }
    if exists|i: int| 0 <= i < args@.len() && "siphon://"@.is_prefix_of((#[trigger] args@[i])@) {
        let i = choose|i: int|
            0 <= i < args@.len() && "siphon://"@.is_prefix_of((#[trigger] args@[i])@);
        assert("siphon://"@.is_prefix_of(v[i]));
    }
    if hidden {
        let i = choose|i: int| 0 <= i < v.len() && v[i] == "--autostart"@;
        assert(args@[i]@ == "--autostart"@);
    }
    if exists|i: int| 0 <= i < args@.len() && (#[trigger] args@[i])@ == "--autostart"@ {
        let i = choose|i: int| 0 <= i < args@.len() && (#[trigger] args@[i])@ == "--autostart"@;
        assert(v[i] == "--autostart"@);
    }
}

} // verus!
