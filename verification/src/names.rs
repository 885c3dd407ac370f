//! File names: cleaning them, taking them apart, and choosing one that is still free.

use crate::foreign::{
    self, begins_twice, is_portable, last_component, last_component_with_drive, lowercase,
    finds_name, lowers_ascii, names_path, path_components, slashed, without_drive,
};
use crate::number::{
    decimal, decimal_reads_back, decimal_text, is_digits, is_number, lemma_decimal, value_of,
};
use crate::text::{
    collapse, collapsed, collapsed_is_tidy, from_chars, is_space, is_tidy, joined,
    lemma_pieces_nonempty, lemma_trim_back, lemma_trim_front, lemma_words_chars, opt, pieces_from,
    tidy_text_stays, to_chars, trim, trim_front, trimmed, words,
};
use vstd::prelude::*;

verus! {

/// Characters that no file name keeps: path separators, what a shell or a file system gives a
/// meaning to, and control characters.
pub open spec fn is_forbidden(c: char) -> bool {
    ||| c == '<'
    ||| c == '>'
    ||| c == ':'
    ||| c == '"'
    ||| c == '/'
    ||| c == '\\'
    ||| c == '|'
    ||| c == '?'
    ||| c == '*'
    ||| c < '\u{20}'
}

/// `s` with a space for every forbidden character.
pub open spec fn blanked(s: Seq<char>) -> Seq<char> {
    s.map_values(
        |c: char|
            if is_forbidden(c) {
                ' '
            } else {
                c
            },
    )
}

/// The longest file name that is made, in characters.
pub const MAX_NAME: usize = 180;

/// The file name made of `s`: forbidden characters blanked, white space collapsed, at most 180
/// characters, and `download` where nothing is left.
pub open spec fn sanitized(s: Seq<char>) -> Seq<char> {
    let t = trimmed(collapsed(blanked(s)));
    let clipped = if t.len() > MAX_NAME {
        t.take(MAX_NAME as int)
    } else {
        t
    };
    if clipped.len() == 0 {
        "download"@
    } else {
        clipped
    }
}

fn forbidden(c: char) -> (r: bool)
    ensures
        r == is_forbidden(c),
{
    c == '<' || c == '>' || c == ':' || c == '"' || c == '/' || c == '\\' || c == '|' || c == '?'
        || c == '*' || c < '\u{20}'
}

/// The file name made of `value`.
pub fn sanitize_file_name(value: &str) -> (r: String)
    ensures
        r@ == sanitized(value@),
{
    let c = to_chars(value);
    let mut replaced = String::new();
    let mut i: usize = 0;
    while i < c.len()
        invariant
            i <= c@.len(),
            c@ == value@,
            replaced@ == blanked(value@.take(i as int)),
        decreases c.len() - i,
    {
        replaced.push(
            if forbidden(c[i]) {
                ' '
            } else {
                c[i]
            },
        );
        i = i + 1;
        assert(blanked(value@.take(i as int)) =~= blanked(value@.take(i - 1)).push(
            blanked(value@)[i - 1],
        ));
    }
    assert(value@.take(value@.len() as int) =~= value@);
    let collapsed_text = collapse(replaced.as_str());
    let tight = trim(collapsed_text.as_str());
    let t = to_chars(tight.as_str());
    let end: usize = if t.len() > MAX_NAME {
        MAX_NAME
    } else {
        t.len()
    };
    let clipped = from_chars(&t, 0, end);
    assert(clipped@ =~= t@.take(end as int));
    assert(t@.take(t@.len() as int) =~= t@);
    if end == 0 {
        String::from_str("download")
    } else {
        clipped
    }
}

proof fn lemma_joined_chars(parts: Seq<Seq<char>>, sep: Seq<char>, i: int)
    requires
        0 <= i < joined(parts, sep).len(),
    ensures
        sep.contains(joined(parts, sep)[i]) || exists|k: int, j: int|
            0 <= k < parts.len() && 0 <= j < parts[k].len() && #[trigger] parts[k][j] == joined(
                parts,
                sep,
            )[i],
    decreases parts.len(),
{
    if parts.len() == 1 {
        assert(parts[0][i] == joined(parts, sep)[i]);
    } else {
        let head = joined(parts.drop_last(), sep);
        if i < head.len() {
            lemma_joined_chars(parts.drop_last(), sep, i);
            if !sep.contains(head[i]) {
                let (k, j) = choose|k: int, j: int|
                    0 <= k < parts.drop_last().len() && 0 <= j < parts.drop_last()[k].len()
                        && #[trigger] parts.drop_last()[k][j] == head[i];
                assert(parts[k][j] == head[i]);
            }
        } else if i < head.len() + sep.len() {
            assert(sep[i - head.len()] == joined(parts, sep)[i]);
        } else {
            assert(parts[parts.len() - 1][i - head.len() - sep.len()] == joined(parts, sep)[i]);
        }
    }
}

proof fn lemma_trim_chars(s: Seq<char>)
    ensures
        forall|i: int| 0 <= i < trimmed(s).len() ==> s.contains(#[trigger] trimmed(s)[i]),
{
    lemma_trim_front(s);
    let t = trim_front(s);
    lemma_trim_back(t);
    assert forall|i: int| 0 <= i < trimmed(s).len() implies s.contains(
        #[trigger] trimmed(s)[i],
    ) by {
        assert(trimmed(s)[i] == t[i]);
        assert(t[i] == s[s.len() - t.len() + i]);
    }
}

/// A file name that was made holds no forbidden character and no white space but single blanks,
/// and has between 1 and 180 characters.
pub proof fn sanitized_is_safe(s: Seq<char>)
    ensures
        1 <= sanitized(s).len() <= MAX_NAME,
        forall|i: int|
            0 <= i < sanitized(s).len() ==> {
                &&& !is_forbidden(#[trigger] sanitized(s)[i])
                &&& is_space(sanitized(s)[i]) ==> sanitized(s)[i] == ' '
            },
{
    reveal_strlit("download");
    let b = blanked(s);
    let c = collapsed(b);
    let t = trimmed(c);
    lemma_trim_chars(c);
    lemma_words_chars(b);
    assert forall|i: int| 0 <= i < t.len() implies {
        &&& !is_forbidden(#[trigger] t[i])
        &&& is_space(t[i]) ==> t[i] == ' '
    } by {
        assert(c.contains(t[i]));
        let j = choose|j: int| 0 <= j < c.len() && c[j] == t[i];
        lemma_joined_chars(words(b), seq![' '], j);
        if seq![' '].contains(c[j]) {
            assert(c[j] == ' ');
        } else {
            let (k, m) = choose|k: int, m: int|
                0 <= k < words(b).len() && 0 <= m < words(b)[k].len() && #[trigger] words(b)[k][m]
                    == c[j];
            assert(!is_space(words(b)[k][m]));
            assert(b.contains(words(b)[k][m]));
            let x = choose|x: int| 0 <= x < b.len() && b[x] == c[j];
            assert(b[x] == ' ' || !is_forbidden(b[x]));
        }
    }
}

/// Cleaning a file name that was made changes nothing, unless it was cut off after a blank.
pub proof fn sanitized_stays(s: Seq<char>)
    requires
        sanitized(s).last() != ' ',
    ensures
        sanitized(sanitized(s)) == sanitized(s),
{
    let r = sanitized(s);
    sanitized_is_safe(s);
    assert(is_tidy(r)) by {
        let c = collapsed(blanked(s));
        collapsed_is_tidy(blanked(s));
        tidy_text_stays(c);
        if c.len() == 0 {
            reveal_strlit("download");
            assert forall|i: int| 0 <= i < r.len() implies !is_space(#[trigger] r[i]) by {}
        } else {
            assert(forall|i: int| 0 <= i < r.len() ==> #[trigger] r[i] == c[i]);
            assert(is_space(r.last()) ==> r.last() == ' ') by {
                assert(r[r.len() - 1] == r.last());
            }
        }
    }
    assert(blanked(r) =~= r) by {
        assert forall|i: int| 0 <= i < r.len() implies !is_forbidden(#[trigger] r[i]) by {}
    }
    tidy_text_stays(r);
}

/// Where the extension of a file name begins: after the last dot that is not its first
/// character.
pub open spec fn extension_dot(name: Seq<char>) -> Option<int> {
    match name.index_of_last('.') {
        Some(at) => if at > 0 {
            Some(at)
        } else {
            None
        },
        None => None,
    }
}

/// The extension of a file name.
pub open spec fn extension_of(name: Seq<char>) -> Option<Seq<char>> {
    match extension_dot(name) {
        Some(at) => Some(name.skip(at + 1)),
        None => None,
    }
}

/// A file name without its extension.
pub open spec fn stem_of(name: Seq<char>) -> Seq<char> {
    match extension_dot(name) {
        Some(at) => name.take(at),
        None => name,
    }
}

/// A file name in two parts.
pub struct NameParts {
    pub stem: String,
    pub extension: Option<String>,
}

/// The model of `NameParts`.
#[verifier::ext_equal]
pub struct NameModel {
    pub stem: Seq<char>,
    pub extension: Option<Seq<char>>,
}

impl View for NameParts {
    type V = NameModel;

    open spec fn view(&self) -> NameModel {
        NameModel { stem: self.stem@, extension: opt(self.extension) }
    }
}

/// The two parts of a file name.
pub open spec fn parts_of(name: Seq<char>) -> NameModel {
    NameModel { stem: stem_of(name), extension: extension_of(name) }
}

/// The two parts of a file name.
pub fn split_name(name: &str) -> (r: NameParts)
    ensures
        r@ == parts_of(name@),
{
    let c = to_chars(name);
    let mut i: usize = c.len();
    while i > 0 && c[i - 1] != '.'
        invariant
            i <= c@.len(),
            c@ == name@,
            forall|k: int| i <= k < c@.len() ==> c@[k] != '.',
        decreases i,
    {
        i = i - 1;
    }
    proof {
        name@.index_of_last_ensures('.');
        if i > 0 {
            assert(name@[i - 1] == '.');
        }
    }
    if i > 1 {
        let stem = from_chars(&c, 0, i - 1);
        let ext = from_chars(&c, i, c.len());
        assert(stem@ =~= name@.take(i - 1));
        assert(ext@ =~= name@.skip(i as int));
        NameParts { stem, extension: Some(ext) }
    } else {
        let stem = from_chars(&c, 0, c.len());
        assert(stem@ =~= name@);
        NameParts { stem, extension: None }
    }
}

/// Whether `base` is the file name in a path, or the whole path where it ends in none.
pub open spec fn is_base_name(path: Seq<char>, base: Seq<char>) -> bool {
    exists|name: Option<Seq<char>>| #[trigger]
        finds_name(path, name) && base == match name {
            Some(n) => n,
            None => path,
        }
}

/// The file name in a path, or the whole path where it ends in none.
pub fn basename(path: &str) -> (r: String)
    ensures
        is_base_name(path@, r@),
{
    let name = foreign::name_in(path);
    assert(finds_name(path@, opt(name)));
    match name {
        Some(n) => n,
        None => path.to_owned(),
    }
}

/// Whether lower-casing does with an ASCII extension of a file name what is known of it.
pub open spec fn lowers_extension(name: Option<Seq<char>>) -> bool {
    match name {
        Some(n) => match extension_of(n) {
            Some(e) => lowers_ascii(e),
            None => true,
        },
        None => true,
    }
}

/// Whether `ext` is the extension of the file name in a path, in lower case.
pub open spec fn is_path_extension(path: Seq<char>, ext: Option<Seq<char>>) -> bool {
    exists|name: Option<Seq<char>>| #[trigger]
        finds_name(path, name) && ext == lower_extension(name) && lowers_extension(name)
}

/// The extension of the file name in a path, in lower case.
pub fn path_extension(path: &str) -> (r: Option<String>)
    ensures
        is_path_extension(path@, opt(r)),
{
    let name = foreign::name_in(path);
    assert(finds_name(path@, opt(name)));
    match name {
        Some(n) => extension_in_lower_case(n.as_str()),
        None => None,
    }
}

/// The extension of a file name, in lower case.
pub open spec fn lower_extension(name: Option<Seq<char>>) -> Option<Seq<char>> {
    match name {
        Some(n) => match extension_of(n) {
            Some(e) => Some(lowercase(e)),
            None => None,
        },
        None => None,
    }
}

/// The extension of a file name, in lower case.
pub fn extension_in_lower_case(name: &str) -> (r: Option<String>)
    ensures
        opt(r) == lower_extension(Some(name@)),
        extension_of(name@) matches Some(e) ==> lowers_ascii(e),
{
    match split_name(name).extension {
        Some(e) => Some(foreign::to_lowercase(e.as_str())),
        None => None,
    }
}

/// The two parts of the file name in a path; the whole path is the stem where it ends in no
/// file name.
pub open spec fn parts_in(path: Seq<char>, name: Option<Seq<char>>) -> NameModel {
    match name {
        Some(n) => parts_of(n),
        None => NameModel { stem: path, extension: None },
    }
}

/// The two parts of the file name in a path; the whole path is the stem where it ends in no
/// file name.
pub fn path_parts(path: &str) -> (r: NameParts)
    ensures
        exists|name: Option<Seq<char>>|
            #[trigger] finds_name(path@, name) && r@ == parts_in(path@, name),
{
    let name = foreign::name_in(path);
    assert(finds_name(path@, opt(name)));
    match name {
        Some(n) => split_name(n.as_str()),
        None => NameParts { stem: path.to_owned(), extension: None },
    }
}

/// A file in a folder.
pub struct FilePath {
    pub dir: String,
    pub name: String,
}

/// The model of `FilePath`.
#[verifier::ext_equal]
pub struct FilePathModel {
    pub dir: Seq<char>,
    pub name: Seq<char>,
}

impl View for FilePath {
    type V = FilePathModel;

    open spec fn view(&self) -> FilePathModel {
        FilePathModel { dir: self.dir@, name: self.name@ }
    }
}

impl Clone for FilePath {
    fn clone(&self) -> (r: Self)
        ensures
            r@ == self@,
    {
        FilePath { dir: self.dir.clone(), name: self.name.clone() }
    }
}

/// The `n`-th name to try for a file: the name itself, then the stem with ` (1)`, ` (2)` and so
/// on before the extension.
pub open spec fn candidate(name: Seq<char>, parts: NameModel, n: nat) -> Seq<char> {
    if n == 0 {
        name
    } else {
        parts.stem + " ("@ + decimal(n) + ")"@ + (match parts.extension {
            Some(e) => "."@ + e,
            None => Seq::empty(),
        })
    }
}

/// The `n`-th name to try for a file.
pub fn candidate_name(name: &str, parts: &NameParts, n: u32) -> (r: String)
    ensures
        r@ == candidate(name@, parts@, n as nat),
{
    if n == 0 {
        return name.to_owned();
    }
    let number = decimal_text(n as u128);
    let r = parts.stem.clone().concat(" (").concat(number.as_str()).concat(")");
    match &parts.extension {
        Some(e) => {
            let r = r.concat(".").concat(e.as_str());
            assert(r@ =~= candidate(name@, parts@, n as nat));
            r
        },
        None => {
            assert(r@ =~= candidate(name@, parts@, n as nat));
            r
        },
    }
}

/// Numbered candidates differ from each other.
pub proof fn candidates_differ(name: Seq<char>, parts: NameModel, m: nat, n: nat)
    requires
        1 <= m,
        1 <= n,
        candidate(name, parts, m) == candidate(name, parts, n),
    ensures
        m == n,
{
    let tail = match parts.extension {
        Some(e) => "."@ + e,
        None => Seq::empty(),
    };
    let a = candidate(name, parts, m);
    let b = candidate(name, parts, n);
    let from = parts.stem.len() + " ("@.len();
    let upto = a.len() - tail.len() - ")"@.len();
    assert(a.subrange(from as int, upto as int) =~= decimal(m));
    assert(b.subrange(from as int, upto as int) =~= decimal(n));
    decimal_reads_back(m);
    decimal_reads_back(n);
}

/// Whether the answer `taken` can come from asking `exists` about the file `name` in `dir`.
pub open spec fn answers<F: Fn(&FilePath) -> bool>(
    exists_at: F,
    dir: Seq<char>,
    name: Seq<char>,
    taken: bool,
) -> bool {
    exists|p: FilePath|
        #![trigger p@]
        p@.dir == dir && p@.name == name && call_ensures(exists_at, (&p,), taken)
}

/// Whether `r` is the first candidate for `file_name` in `dir` that `exists_at` does not report as
/// taken, or none where all of the first 2^32 are taken; `parts` are the parts of the name.
pub open spec fn is_first_free<F: Fn(&FilePath) -> bool>(
    exists_at: F,
    dir: Seq<char>,
    file_name: Seq<char>,
    parts: NameModel,
    r: Option<FilePath>,
) -> bool {
    match r {
        Some(p) => exists|n: nat|
            {
                &&& n <= u32::MAX
                &&& p@.dir == dir
                &&& p@.name == #[trigger] candidate(file_name, parts, n)
                &&& call_ensures(exists_at, (&p,), false)
                &&& forall|m: nat|
                    m < n ==> answers(
                        exists_at,
                        dir,
                        #[trigger] candidate(file_name, parts, m),
                        true,
                    )
            },
        None => forall|m: nat|
            m <= u32::MAX ==> answers(
                exists_at,
                dir,
                #[trigger] candidate(file_name, parts, m),
                true,
            ),
    }
}

/// Whether `r` is the first candidate for `file_name` in `dir` that `exists_at` does not report as
/// taken, or none where all of the first 2^32 are taken.
pub open spec fn is_unique_path<F: Fn(&FilePath) -> bool>(
    exists_at: F,
    dir: Seq<char>,
    file_name: Seq<char>,
    r: Option<FilePath>,
) -> bool {
    exists|name: Option<Seq<char>>| #[trigger]
        finds_name(file_name, name) && is_first_free(
            exists_at,
            dir,
            file_name,
            parts_in(file_name, name),
            r,
        )
}

/// The first candidate for `file_name` in `dir` that `exists_at` does not report as taken; none
/// where all of the first 2^32 are.
pub fn unique_path<F: Fn(&FilePath) -> bool>(
    dir: &str,
    file_name: &str,
    exists_at: &F,
) -> (r: Option<FilePath>)
    requires
        forall|p: &FilePath| call_requires(*exists_at, (p,)),
    ensures
        is_unique_path(*exists_at, dir@, file_name@, r),
{
    let parts = path_parts(file_name);
    let ghost name = choose|name: Option<Seq<char>>| #[trigger]
        finds_name(file_name@, name) && parts@ == parts_in(file_name@, name);
    let mut n: u32 = 0;
    loop
        invariant
            forall|p: &FilePath| call_requires(*exists_at, (p,)),
            finds_name(file_name@, name),
            parts@ == parts_in(file_name@, name),
            forall|m: nat|
                m < n ==> answers(
                    *exists_at,
                    dir@,
                    #[trigger] candidate(file_name@, parts@, m),
                    true,
                ),
        decreases u32::MAX - n,
    {
        let p = FilePath { dir: dir.to_owned(), name: candidate_name(file_name, &parts, n) };
        if !exists_at(&p) {
            assert(p@.name == candidate(file_name@, parts@, n as nat));
            return Some(p);
        }
        assert(p@.dir == dir@);
        assert(answers(*exists_at, dir@, candidate(file_name@, parts@, n as nat), true));
        if n == u32::MAX {
            return None;
        }
        n = n + 1;
    }
}

/// Whether every system finds the same file name in a path.
pub open spec fn is_read_alike(path: Seq<char>) -> bool {
    is_portable(path) || (!begins_twice(path) && last_component(path)
        == last_component_with_drive(path))
}

/// Whether a text is a file name and nothing else, on every system: it holds no separator, begins
/// with no drive letter, and is neither `.` nor `..`.
pub open spec fn is_plain_name(name: Seq<char>) -> bool {
    &&& name.len() > 0
    &&& !name.contains('/')
    &&& !name.contains('\\')
    &&& without_drive(name) == name
    &&& name != seq!['.']
    &&& name != seq!['.', '.']
}

proof fn lemma_one_piece(name: Seq<char>, at: int)
    requires
        !name.contains('/'),
        0 <= at <= name.len(),
    ensures
        pieces_from(name, seq!['/'], at) == seq![name],
    decreases name.len() - at,
{
    let sep = seq!['/'];
    if at + 1 <= name.len() {
        assert(name.contains(name[at]));
        assert(name.subrange(at, at + 1)[0] == name[at]);
        assert(sep[0] == '/');
        lemma_one_piece(name, at + 1);
    }
}

/// A path without `/` that is split there has itself as its file name, unless it is empty, `.` or
/// `..`.
pub proof fn lemma_file_name_of_one(name: Seq<char>)
    requires
        !name.contains('/'),
    ensures
        last_component(name) == if name.len() == 0 || name == seq!['.'] || name == seq!['.', '.'] {
            None
        } else {
            Some(name)
        },
{
    lemma_one_piece(name, 0);
    reveal(Seq::filter);
    let keep = |c: Seq<char>| c.len() > 0 && c != seq!['.'];
    let one = seq![name];
    assert(one.drop_last() =~= Seq::<Seq<char>>::empty());
    assert(one.drop_last().filter(keep) =~= Seq::<Seq<char>>::empty());
    if keep(name) {
        assert(one.filter(keep) =~= one);
    } else {
        assert(one.filter(keep) =~= Seq::<Seq<char>>::empty());
    }
    assert(path_components(name) == one.filter(keep));
}

/// In a plain file name, with or without colons in it, every system finds the name itself.
pub proof fn plain_name_is_read_alike(name: Seq<char>, found: Option<Seq<char>>)
    requires
        is_plain_name(name),
    ensures
        is_read_alike(name),
        names_path(name, found) <==> found == Some(name),
{
    lemma_file_name_of_one(name);
    assert(slashed(name) =~= name) by {
        assert forall|i: int| 0 <= i < name.len() implies name[i] != '\\' by {
            assert(name.contains(name[i]));
        }
    }
    if begins_twice(name) {
        assert(name.contains(name[0]));
    }
}

/// A new file never takes the place of another: where `exists_at` tells which paths are taken, the
/// path that is chosen is free, and one is found where any candidate is.
pub proof fn new_file_takes_free_path<F: Fn(&FilePath) -> bool>(
    exists_at: F,
    taken: spec_fn(FilePathModel) -> bool,
    dir: Seq<char>,
    file_name: Seq<char>,
    r: Option<FilePath>,
)
    requires
        forall|p: FilePath, b: bool| #[trigger]
            call_ensures(exists_at, (&p,), b) ==> b == taken(p@),
        is_unique_path(exists_at, dir, file_name, r),
    ensures
        r matches Some(p) ==> !taken(p@) && p@.dir == dir,
        is_read_alike(file_name) ==> (r is Some <==> exists|n: nat|
            n <= u32::MAX && !taken(
                FilePathModel {
                    dir,
                    name: #[trigger] candidate(
                        file_name,
                        parts_in(file_name, last_component(file_name)),
                        n,
                    ),
                },
            )),
{
    let name = choose|name: Option<Seq<char>>| #[trigger]
        finds_name(file_name, name) && is_first_free(
            exists_at,
            dir,
            file_name,
            parts_in(file_name, name),
            r,
        );
    let parts = parts_in(file_name, name);
    if r is None {
        assert forall|m: nat| m <= u32::MAX implies taken(
            FilePathModel { dir, name: #[trigger] candidate(file_name, parts, m) },
        ) by {
            let p = choose|p: FilePath|
                #![trigger p@]
                p@.dir == dir && p@.name == candidate(file_name, parts, m) && call_ensures(
                    exists_at,
                    (&p,),
                    true,
                );
            assert(p@ =~= FilePathModel { dir, name: candidate(file_name, parts, m) });
        }
    }
}

/// Whether `s` holds a stream tag: `.f`, at least one decimal digit, and a dot.
pub open spec fn has_stream_tag(s: Seq<char>) -> bool {
    exists|i: int, j: int| is_stream_tag(s, i, j)
}

/// Whether `s[i..=j]` is a stream tag.
pub open spec fn is_stream_tag(s: Seq<char>, i: int, j: int) -> bool {
    &&& 0 <= i
    &&& i + 2 < j < s.len()
    &&& s[i] == '.'
    &&& s[i + 1] == 'f'
    &&& s[j] == '.'
    &&& forall|k: int| i + 2 <= k < j ==> '0' <= #[trigger] s[k] <= '9'
}

/// Whether a name in lower case holds a stream tag.
pub fn has_tag(lower: &str) -> (r: bool)
    ensures
        r == has_stream_tag(lower@),
{
    let c = to_chars(lower);
    let n: usize = c.len();
    let mut i: usize = 0;
    while i < n
        invariant
            i <= n == c@.len(),
            c@ == lower@,
            forall|a: int, b: int| a < i ==> !is_stream_tag(lower@, a, b),
        decreases n - i,
    {
        if n - i >= 2 && c[i] == '.' && c[i + 1] == 'f' {
            let mut j: usize = i + 2;
            while j < n && '0' <= c[j] && c[j] <= '9'
                invariant
                    i + 2 <= j <= n == c@.len(),
                    forall|k: int| i + 2 <= k < j ==> '0' <= #[trigger] c@[k] <= '9',
                decreases n - j,
            {
                j = j + 1;
            }
            if j > i + 2 && j < n && c[j] == '.' {
                assert(is_stream_tag(lower@, i as int, j as int));
                return true;
            }
            assert forall|b: int| !is_stream_tag(lower@, i as int, b) by {
                if is_stream_tag(lower@, i as int, b) {
                    if b < j {
                        assert('0' <= c@[b] <= '9');
                    } else if b > j {
                        assert('0' <= lower@[j as int] <= '9');
                    }
                }
            }
        }
        i = i + 1;
    }
    false
}

/// True for the names of intermediate streams such as `video.f137.mp4`.
pub fn looks_like_intermediate(name: &str) -> (r: bool)
    ensures
        r == has_stream_tag(lowercase(name@)),
        lowers_ascii(name@),
{
    let lower = foreign::to_lowercase(name);
    has_tag(lower.as_str())
}

/// A text with a blank in place of each character that no file name keeps, and all others as they
/// are.
pub open spec fn is_blanked(t: Seq<char>, s: Seq<char>) -> bool {
    &&& t.len() == s.len()
    &&& forall|i: int|
        0 <= i < s.len() ==> #[trigger] t[i] == if path_marks().contains(s[i]) || ' ' > s[i] {
            ' '
        } else {
            s[i]
        }
}

/// The printable characters that no file name keeps.
pub open spec fn path_marks() -> Seq<char> {
    seq!['<', '>', ':', '"', '/', '\\', '|', '?', '*']
}

/// A file name is made of the words of a text, where what no file name keeps counts as a blank:
/// with single blanks between them, and cut off after 180 characters. A text that is such a name
/// already is kept as it is, and one without a word becomes a name all the same.
pub proof fn names_are_made_of_words(value: &str, blanked_value: Seq<char>, r: String)
    requires
        call_ensures(sanitize_file_name, (value,), r),
        is_blanked(blanked_value, value@),
    ensures
        ({
            let t = joined(words(blanked_value), seq![' ']);
            &&& t.len() == 0 ==> r@ == "download"@
            &&& 0 < t.len() <= 180 ==> r@ == t
            &&& t.len() > 180 ==> r@ == t.take(180)
        }),
        blanked_value == value@ && is_tidy(value@) && 0 < value@.len() <= 180 ==> r@ == value@,
{
    let marks = path_marks();
    assert forall|c: char| #[trigger] marks.contains(c) == (c == '<' || c == '>' || c == ':' || c
        == '"' || c == '/' || c == '\\' || c == '|' || c == '?' || c == '*') by {
        assert(marks[0] == '<' && marks[1] == '>' && marks[2] == ':' && marks[3] == '"' && marks[4]
            == '/' && marks[5] == '\\' && marks[6] == '|' && marks[7] == '?' && marks[8] == '*');
        if marks.contains(c) {
            let i = choose|i: int| 0 <= i < marks.len() && marks[i] == c;
        }
    }
    assert(blanked_value =~= blanked(value@));
    collapsed_is_tidy(blanked_value);
    tidy_text_stays(collapsed(blanked_value));
    if blanked_value == value@ && is_tidy(value@) {
        tidy_text_stays(value@);
    }
}

/// A file name is split at its last dot: stem, dot and extension make the name again, and no dot
/// is left in the extension. A name without a dot, or with none but at its front, has no extension.
pub proof fn name_parts_make_the_name(name: &str, parts: NameParts)
    requires
        call_ensures(split_name, (name,), parts),
    ensures
        opt(parts.extension) matches Some(e) ==> {
            &&& name@ == parts.stem@ + seq!['.'] + e
            &&& !e.contains('.')
            &&& parts.stem@.len() > 0
        },
        parts.extension is None ==> parts.stem@ == name@ && forall|i: int|
            0 < i < name@.len() ==> #[trigger] name@[i] != '.',
{
    name@.index_of_last_ensures('.');
    match extension_dot(name@) {
        Some(at) => {
            let e = name@.skip(at + 1);
            assert(name@ =~= name@.take(at) + seq!['.'] + e);
            if e.contains('.') {
                let i = choose|i: int| 0 <= i < e.len() && e[i] == '.';
                assert(name@[at + 1 + i] == '.');
            }
        },
        None => {
            assert forall|i: int| 0 < i < name@.len() implies #[trigger] name@[i] != '.' by {
                if name@[i] == '.' {
                    assert(name@.contains('.'));
                }
            }
        },
    }
}

/// The names that are tried for a file are the name itself and then the stem with a number in
/// brackets, which reads back, before the extension.
pub proof fn tried_names_are_numbered(name: &str, parts: NameParts, n: u32, r: String)
    requires
        call_ensures(candidate_name, (name, &parts, n), r),
    ensures
        n == 0 ==> r@ == name@,
        n > 0 ==> exists|digits: Seq<char>|
            {
                &&& is_number(digits) && value_of(digits) == n
                &&& r@ == #[trigger] (parts.stem@ + " ("@ + digits + ")"@) + (match opt(
                    parts.extension,
                ) {
                    Some(e) => seq!['.'] + e,
                    None => Seq::empty(),
                })
            },
{
    if n > 0 {
        lemma_decimal(n as nat);
        let digits = decimal(n as nat);
        reveal_strlit(".");
        assert("."@ =~= seq!['.']);
        assert(r@ =~= (parts.stem@ + " ("@ + digits + ")"@) + (match opt(parts.extension) {
            Some(e) => seq!['.'] + e,
            None => Seq::empty(),
        }));
    }
}

/// A plain file name that is free is taken as it is; one that is taken gets the least number that
/// makes it free, before its extension; and what comes out is in the folder that was named.
pub proof fn least_free_name_is_taken<F: Fn(&FilePath) -> bool>(
    dir: &str,
    file_name: &str,
    exists_at: &F,
    taken: spec_fn(FilePathModel) -> bool,
    r: Option<FilePath>,
)
    requires
        is_plain_name(file_name@),
        forall|p: FilePath, b: bool| #[trigger]
            call_ensures(*exists_at, (&p,), b) ==> b == taken(p@),
        call_ensures(unique_path::<F>, (dir, file_name, exists_at), r),
    ensures
        r matches Some(p) ==> p.dir@ == dir@ && !taken(p@),
        !taken(FilePathModel { dir: dir@, name: file_name@ }) ==> (r matches Some(p) && p.name@
            == file_name@),
        r matches Some(p) ==> exists|n: nat|
            {
                &&& p.name@ == #[trigger] candidate(file_name@, parts_of(file_name@), n)
                &&& forall|m: nat|
                    m < n ==> taken(
                        FilePathModel {
                            dir: dir@,
                            name: #[trigger] candidate(file_name@, parts_of(file_name@), m),
                        },
                    )
            },
{
    let name = choose|name: Option<Seq<char>>| #[trigger]
        finds_name(file_name@, name) && is_first_free(
            *exists_at,
            dir@,
            file_name@,
            parts_in(file_name@, name),
            r,
        );
    plain_name_is_read_alike(file_name@, name);
    let parts = parts_of(file_name@);
    assert(parts_in(file_name@, name) == parts);
    assert forall|m: nat| answers(
        *exists_at,
        dir@,
        #[trigger] candidate(file_name@, parts, m),
        true,
    ) implies taken(FilePathModel { dir: dir@, name: candidate(file_name@, parts, m) }) by {
        let p = choose|p: FilePath|
            #![trigger p@]
            p@.dir == dir@ && p@.name == candidate(file_name@, parts, m) && call_ensures(
                *exists_at,
                (&p,),
                true,
            );
        assert(p@ =~= FilePathModel { dir: dir@, name: candidate(file_name@, parts, m) });
    }
    let first = candidate(file_name@, parts, 0);
    match r {
        Some(p) => {
            let n = choose|n: nat|
                {
                    &&& n <= u32::MAX
                    &&& p@.dir == dir@
                    &&& p@.name == #[trigger] candidate(file_name@, parts, n)
                    &&& call_ensures(*exists_at, (&p,), false)
                    &&& forall|m: nat|
                        m < n ==> answers(
                            *exists_at,
                            dir@,
                            #[trigger] candidate(file_name@, parts, m),
                            true,
                        )
                };
            assert forall|m: nat| m < n implies taken(
                FilePathModel { dir: dir@, name: #[trigger] candidate(file_name@, parts, m) },
            ) by {
                assert(answers(*exists_at, dir@, candidate(file_name@, parts, m), true));
            }
            if n > 0 {
                assert(taken(FilePathModel { dir: dir@, name: first }));
            }
        },
        None => {
            assert(answers(*exists_at, dir@, first, true));
        },
    }
}

proof fn lemma_last_piece_of(a: Seq<char>, b: Seq<char>, at: int)
    requires
        !b.contains('/'),
        0 <= at <= a.len(),
    ensures
        pieces_from(a + seq!['/'] + b, seq!['/'], at).last() == b,
    decreases a.len(), a.len() - at,
{
    let sep = seq!['/'];
    let s = a + sep + b;
    if at == a.len() {
        assert(s.subrange(at, at + 1) =~= sep);
        assert(s.skip(at + 1) =~= b);
        lemma_one_piece(b, 0);
    } else if s.subrange(at, at + 1) == sep {
        let rest = a.skip(at + 1);
        assert(s.skip(at + 1) =~= rest + sep + b);
        lemma_last_piece_of(rest, b, 0);
        lemma_pieces_nonempty(s.skip(at + 1), sep, 0);
    } else {
        lemma_last_piece_of(a, b, at + 1);
    }
}

proof fn lemma_filter_last(list: Seq<Seq<char>>, keep: spec_fn(Seq<char>) -> bool)
    requires
        list.len() > 0,
        keep(list.last()),
    ensures
        list.filter(keep).len() > 0,
        list.filter(keep).last() == list.last(),
{
    reveal(Seq::filter);
}

/// In a path that all systems read alike, the file name is what stands behind the last separator;
/// and a plain file name is its own.
pub proof fn file_name_is_behind_the_last_separator(
    path: &str,
    dir: Seq<char>,
    name: Seq<char>,
    base: String,
    extension: Option<String>,
)
    requires
        is_plain_name(name),
        path@ == name || path@ == dir + seq!['/'] + name && is_portable(path@),
        call_ensures(basename, (path,), base),
        call_ensures(path_extension, (path,), extension),
    ensures
        base@ == name,
        opt(extension) == lower_extension(Some(name)),
{
    if path@ == name {
        plain_name_is_read_alike(name, Some(base@));
        assert forall|found: Option<Seq<char>>| #[trigger] finds_name(path@, found) implies found
            == Some(name) by {
            plain_name_is_read_alike(name, found);
        }
    } else {
        let keep = |c: Seq<char>| c.len() > 0 && c != seq!['.'];
        lemma_last_piece_of(dir, name, 0);
        lemma_pieces_nonempty(path@, seq!['/'], 0);
        lemma_filter_last(pieces_from(path@, seq!['/'], 0), keep);
        assert(path_components(path@).last() == name);
        assert(last_component(path@) == Some(name));
    }
}

/// A name tells of a stream that waits to be merged exactly where `.f`, a number and a dot stand
/// in it.
pub proof fn stream_names_hold_a_number(lower: &str, r: bool)
    requires
        call_ensures(has_tag, (lower,), r),
    ensures
        r <==> exists|a: Seq<char>, digits: Seq<char>, b: Seq<char>|
            is_digits(digits) && lower@ == #[trigger] (a + ".f"@ + digits + "."@ + b),
{
    reveal_strlit(".f");
    reveal_strlit(".");
    let s = lower@;
    if r {
        let (i, j) = choose|i: int, j: int| is_stream_tag(s, i, j);
        let a = s.take(i);
        let digits = s.subrange(i + 2, j);
        let b = s.skip(j + 1);
        assert forall|k: int| 0 <= k < digits.len() implies '0' <= #[trigger] digits[k] <= '9' by {
            assert(digits[k] == s[i + 2 + k]);
        }
        assert(is_digits(digits));
        assert(s =~= a + ".f"@ + digits + "."@ + b);
    }
    if exists|a: Seq<char>, digits: Seq<char>, b: Seq<char>|
        is_digits(digits) && s == #[trigger] (a + ".f"@ + digits + "."@ + b) {
        let (a, digits, b) = choose|a: Seq<char>, digits: Seq<char>, b: Seq<char>|
            is_digits(digits) && s == #[trigger] (a + ".f"@ + digits + "."@ + b);
        let i = a.len() as int;
        let j = i + 2 + digits.len();
        assert forall|k: int| i + 2 <= k < j implies '0' <= #[trigger] s[k] <= '9' by {
            assert(s[k] == digits[k - i - 2]);
        }
        assert(is_stream_tag(s, i, j));
    }
}

/// Streams that wait to be merged are known by their names in letters of any case.
pub proof fn stream_names_are_known_in_any_case(name: &str, lower: &str, r: bool, tagged: bool)
    requires
        call_ensures(looks_like_intermediate, (name,), r),
        lower@ == lowercase(name@),
        call_ensures(has_tag, (lower,), tagged),
    ensures
        r == tagged,
{
}

/// A file whose name is free keeps it: where `exists_at` tells which paths are taken and the name
/// is not, it is the name of the path that is chosen.
pub proof fn free_name_is_kept<F: Fn(&FilePath) -> bool>(
    exists_at: F,
    taken: spec_fn(FilePathModel) -> bool,
    dir: Seq<char>,
    file_name: Seq<char>,
    r: Option<FilePath>,
)
    requires
        forall|p: FilePath, b: bool| #[trigger]
            call_ensures(exists_at, (&p,), b) ==> b == taken(p@),
        is_unique_path(exists_at, dir, file_name, r),
        !taken(FilePathModel { dir, name: file_name }),
    ensures
        r matches Some(p) && p.name@ == file_name && p.dir@ == dir,
{
    let name = choose|name: Option<Seq<char>>| #[trigger]
        finds_name(file_name, name) && is_first_free(
            exists_at,
            dir,
            file_name,
            parts_in(file_name, name),
            r,
        );
    let parts = parts_in(file_name, name);
    let first = candidate(file_name, parts, 0);
    assert(!answers(exists_at, dir, first, true)) by {
        if answers(exists_at, dir, first, true) {
            let p = choose|p: FilePath|
                #![trigger p@]
                p@.dir == dir && p@.name == first && call_ensures(exists_at, (&p,), true);
            assert(p@ =~= FilePathModel { dir, name: file_name });
        }
    }
}

} // verus!
