//! Checksums of downloaded binaries.

use crate::foreign::{self, hex_text, lowercase, lowers_ascii, sha256};
use crate::links::{trim_start_matches, without_prefixes};
use crate::text::{
    ascii_lower, ascii_lowered, lines, lines_of, opt, outcome, same, split_whitespace,
    step_outcome, trim, trimmed, views, words,
};
use vstd::prelude::*;
use vstd::utf8::{decode_utf8, encode_utf8, is_ascii_chars, is_ascii_chars_encode_utf8, valid_utf8};

verus! {

/// The SHA-256 digest of bytes, in lower-case hexadecimal digits.
pub fn sha256_hex(bytes: &[u8]) -> (r: String)
    ensures
        r@ == hex_text(sha256(bytes@)),
        r@.len() == 64,
{
    let digest = foreign::sha256_digest(bytes);
    foreign::hex_encode(&digest)
}

/// What is reported of bytes whose digest is not the expected one.
pub open spec fn mismatch(expected: Seq<char>, got: Seq<char>) -> Seq<char> {
    "Integrity check failed (expected "@ + expected + ", got "@ + got + "); download discarded."@
}

/// Whether a digest in lower-case hexadecimal digits is the expected one, which is given without
/// white space around it and in lower case; or why it is not.
pub open spec fn digest_verdict(expected: Seq<char>, got: Seq<char>) -> Result<(), Seq<char>> {
    if encode_utf8(expected).len() != 64 {
        Err("Checksum was missing or malformed; download discarded."@)
    } else if got == expected {
        Ok(())
    } else {
        Err(mismatch(expected, got))
    }
}

/// Whether a digest is the expected one, or why it is not.
pub fn compare_digests(expected: &str, got: &str) -> (r: Result<(), String>)
    ensures
        step_outcome(r) == digest_verdict(expected@, got@),
{
    if expected.as_bytes().len() != 64 {
        return Err(
            String::from_str("Checksum was missing or malformed; download discarded."),
        );
    }
    if same(got, expected) {
        Ok(())
    } else {
        Err(
            String::from_str("Integrity check failed (expected ").concat(expected).concat(
                ", got ",
            ).concat(got).concat("); download discarded."),
        )
    }
}

/// Whether bytes have the expected checksum, or why they have not.
pub open spec fn checksum_verdict(bytes: Seq<u8>, expected_hex: Seq<char>) -> Result<
    (),
    Seq<char>,
> {
    digest_verdict(lowercase(trimmed(expected_hex)), hex_text(sha256(bytes)))
}

proof fn lemma_hex_is_ascii(bytes: Seq<u8>)
    ensures
        is_ascii_chars(hex_text(bytes)),
        ascii_lowered(hex_text(bytes)) == hex_text(bytes),
{
    let h = hex_text(bytes);
    assert forall|i: int| 0 <= i < h.len() implies '\0' <= #[trigger] h[i] <= '\u{7f}'
        && ascii_lower(h[i]) == h[i] by {
        let b = bytes[i / 2] as int;
        assert(0 <= b / 16 < 16);
        assert(0 <= b % 16 < 16);
    }
    assert(ascii_lowered(h) =~= h);
}

/// Whether bytes have the expected checksum, which is compared without regard to the case of its
/// letters and to white space around it; or why they have not.
pub fn verify_sha256(bytes: &[u8], expected_hex: &str) -> (r: Result<(), String>)
    ensures
        step_outcome(r) == checksum_verdict(bytes@, expected_hex@),
        lowers_ascii(trimmed(expected_hex@)),
        is_ascii_chars(trimmed(expected_hex@)) ==> (r is Ok <==> ascii_lowered(
            trimmed(expected_hex@),
        ) == hex_text(sha256(bytes@))),
{
    let stated = trim(expected_hex);
    let expected = foreign::to_lowercase(stated.as_str());
    let got = sha256_hex(bytes);
    proof {
        lemma_hex_is_ascii(sha256(bytes@));
        is_ascii_chars_encode_utf8(got@);
    }
    compare_digests(expected.as_str(), got.as_str())
}

/// The checksum that a line of a list gives for the asset of the given name, as it is written: the
/// line holds the checksum and the name, which may have a `*` before it.
pub open spec fn written_in_line(line: Seq<char>, asset: Seq<char>) -> Option<Seq<char>> {
    let w = words(line);
    if w.len() >= 2 && without_prefixes(w[1], "*"@) == asset {
        Some(w[0])
    } else {
        None
    }
}

/// The checksum that the first line with the asset's name gives for it, as it is written.
pub open spec fn written_in(lines: Seq<Seq<char>>, asset: Seq<char>) -> Option<Seq<char>>
    decreases lines.len(),
{
    if lines.len() == 0 {
        None
    } else if written_in_line(lines[0], asset) is Some {
        written_in_line(lines[0], asset)
    } else {
        written_in(lines.skip(1), asset)
    }
}

/// The checksum that the first line with the asset's name gives for it, in lower case.
pub open spec fn listed_in(lines: Seq<Seq<char>>, asset: Seq<char>) -> Option<Seq<char>> {
    match written_in(lines, asset) {
        Some(hex) => Some(lowercase(hex)),
        None => None,
    }
}

/// The checksum that a list gives for the asset of the given name.
#[verifier::loop_isolation(false)]
pub fn expected_sha_for(sums_text: &str, asset_name: &str) -> (r: Option<String>)
    ensures
        opt(r) == listed_in(lines_of(sums_text@), asset_name@),
        written_in(lines_of(sums_text@), asset_name@) matches Some(hex) ==> lowers_ascii(hex),
{
    let list = lines(sums_text);
    let ghost v = views(list@);
    let mut i: usize = 0;
    assert(v.skip(0) =~= v);
    while i < list.len()
        invariant
            i <= list@.len(),
            v == views(list@),
            written_in(v, asset_name@) == written_in(v.skip(i as int), asset_name@),
        decreases list.len() - i,
    {
        let parts = split_whitespace(list[i].as_str());
        proof {
            reveal_strlit("*");
            assert(v.skip(i as int)[0] == list@[i as int]@);
            assert(v.skip(i as int).skip(1) =~= v.skip(i + 1));
        }
        if parts.len() >= 2 {
            assert(views(parts@)[0] == parts@[0]@);
            assert(views(parts@)[1] == parts@[1]@);
            let name = trim_start_matches(parts[1].as_str(), "*");
            if same(name.as_str(), asset_name) {
                return Some(foreign::to_lowercase(parts[0].as_str()));
            }
        }
        i = i + 1;
    }
    None
}

/// The text of a downloaded list of checksums, or why there is none.
pub open spec fn text_of_list(reply: Result<Seq<u8>, Seq<char>>) -> Result<Seq<char>, Seq<char>> {
    match reply {
        Ok(bytes) => if valid_utf8(bytes) {
            Ok(decode_utf8(bytes))
        } else {
            Err("Checksum file was not valid UTF-8."@)
        },
        Err(e) => Err(e),
    }
}

/// The view of a download of bytes.
pub open spec fn reply_view(reply: Result<Vec<u8>, String>) -> Result<Seq<u8>, Seq<char>> {
    match reply {
        Ok(bytes) => Ok(bytes@),
        Err(e) => Err(e@),
    }
}

/// The text of a downloaded list of checksums, or why there is none.
pub fn download_text(reply: Result<Vec<u8>, String>) -> (r: Result<String, String>)
    ensures
        outcome(r) == text_of_list(reply_view(reply)),
{
    match reply {
        Ok(bytes) => match foreign::from_utf8(bytes) {
            Some(text) => Ok(text),
            None => Err(String::from_str("Checksum file was not valid UTF-8.")),
        },
        Err(e) => Err(e),
    }
}

/// Whether the bytes of an asset have the checksum that a list gives for it, or why they have
/// not.
pub open spec fn asset_verdict(
    bytes: Seq<u8>,
    list: Result<Seq<u8>, Seq<char>>,
    asset: Seq<char>,
) -> Result<(), Seq<char>> {
    match text_of_list(list) {
        Ok(text) => match listed_in(lines_of(text), asset) {
            Some(expected) => checksum_verdict(bytes, expected),
            None => Err("Could not verify yt-dlp: checksums were unavailable."@),
        },
        Err(_) => Err("Could not verify yt-dlp: checksums were unavailable."@),
    }
}

/// Whether lower-casing does with an ASCII checksum that a list gives for an asset what is known of
/// it: with the checksum as it is written, and with the lower-case one, which is lowered once more.
pub open spec fn lowers_listed(list: Result<Seq<u8>, Seq<char>>, asset: Seq<char>) -> bool {
    match text_of_list(list) {
        Ok(text) => match written_in(lines_of(text), asset) {
            Some(hex) => lowers_ascii(hex) && lowers_ascii(trimmed(lowercase(hex))),
            None => true,
        },
        Err(_) => true,
    }
}

/// Whether the bytes of an asset have the checksum that a list gives for it.
pub fn verify_asset(bytes: &[u8], list: Result<Vec<u8>, String>, asset: &str) -> (r: Result<
    (),
    String,
>)
    ensures
        step_outcome(r) == asset_verdict(bytes@, reply_view(list), asset@),
        lowers_listed(reply_view(list), asset@),
{
    let expected = match download_text(list) {
        Ok(text) => expected_sha_for(text.as_str(), asset),
        Err(_) => None,
    };
    match expected {
        Some(hex) => verify_sha256(bytes, hex.as_str()),
        None => Err(String::from_str("Could not verify yt-dlp: checksums were unavailable.")),
    }
}

/// The first word of a text; nothing where there is none.
pub open spec fn first_word(text: Seq<char>) -> Seq<char> {
    if words(text).len() > 0 {
        words(text)[0]
    } else {
        Seq::empty()
    }
}

/// Whether the bytes of an archive have the checksum that its checksum file begins with, or why
/// they have not.
pub open spec fn archive_verdict(bytes: Seq<u8>, list: Result<Seq<u8>, Seq<char>>) -> Result<
    (),
    Seq<char>,
> {
    match text_of_list(list) {
        Ok(text) => checksum_verdict(bytes, first_word(text)),
        Err(e) => Err(e),
    }
}

/// Whether the bytes of an archive have the checksum that its checksum file begins with.
pub fn verify_archive(bytes: &[u8], list: Result<Vec<u8>, String>) -> (r: Result<(), String>)
    ensures
        step_outcome(r) == archive_verdict(bytes@, reply_view(list)),
{
    match download_text(list) {
        Ok(text) => {
            let parts = split_whitespace(text.as_str());
            if parts.len() > 0 {
                assert(views(parts@)[0] == parts@[0]@);
                verify_sha256(bytes, parts[0].as_str())
            } else {
                proof {
                    reveal_strlit("");
                    assert(""@ =~= Seq::<char>::empty());
                }
                verify_sha256(bytes, "")
            }
        },
        Err(e) => Err(e),
    }
}

/// One checksum stands for one digest: bytes that pass against the same checksum have the same
/// digest.
pub proof fn checksum_fixes_digest(a: Seq<u8>, b: Seq<u8>, expected_hex: Seq<char>)
    requires
        checksum_verdict(a, expected_hex) is Ok,
        checksum_verdict(b, expected_hex) is Ok,
    ensures
        sha256(a) == sha256(b),
{
    let x = sha256(a);
    let y = sha256(b);
    assert(hex_text(x) == hex_text(y));
    assert(2 * x.len() == hex_text(x).len());
    assert(2 * y.len() == hex_text(y).len());
    assert forall|i: int| 0 <= i < x.len() implies x[i] == y[i] by {
        assert(hex_text(x)[2 * i] == hex_text(y)[2 * i]);
        assert(hex_text(x)[2 * i + 1] == hex_text(y)[2 * i + 1]);
        assert((2 * i) / 2 == i && (2 * i) % 2 == 0);
        assert((2 * i + 1) / 2 == i && (2 * i + 1) % 2 == 1);
        assert(0 <= x[i] as int / 16 < 16 && 0 <= y[i] as int / 16 < 16);
        assert(x[i] as int / 16 == y[i] as int / 16);
        assert(x[i] as int % 16 == y[i] as int % 16);
    }
    assert(x =~= y);
}

/// Bytes pass against a checksum only where their digest is that checksum, in letters of any case
/// and with blanks around it; a checksum in ASCII characters that is their digest is passed.
pub proof fn only_right_bytes_pass(bytes: &[u8], expected_hex: &str, r: Result<(), String>)
    requires
        call_ensures(verify_sha256, (bytes, expected_hex), r),
    ensures
        r is Ok ==> lowercase(trimmed(expected_hex@)) == hex_text(sha256(bytes@)),
        is_ascii_chars(trimmed(expected_hex@)) ==> (r is Ok <==> trimmed(expected_hex@).len()
            == hex_text(sha256(bytes@)).len() && forall|i: int|
            0 <= i < trimmed(expected_hex@).len() ==> ascii_lower(
                #[trigger] trimmed(expected_hex@)[i],
            ) == hex_text(sha256(bytes@))[i]),
        r matches Err(e) ==> e@ == "Checksum was missing or malformed; download discarded."@ || e@
            == "Integrity check failed (expected "@ + lowercase(trimmed(expected_hex@)) + ", got "@
            + hex_text(sha256(bytes@)) + "); download discarded."@,
{
    let t = trimmed(expected_hex@);
    let h = hex_text(sha256(bytes@));
    if is_ascii_chars(t) {
        if r is Ok {
            assert forall|i: int| 0 <= i < t.len() implies ascii_lower(#[trigger] t[i]) == h[i] by {
                assert(ascii_lowered(t)[i] == h[i]);
            }
        }
        if t.len() == h.len() && forall|i: int|
            0 <= i < t.len() ==> ascii_lower(#[trigger] t[i]) == h[i] {
            assert(ascii_lowered(t) =~= h);
        }
    }
}

/// A digest is the written form of what it stands for: two digits for each of its 32 bytes, which
/// read back.
pub proof fn digest_reads_back(bytes: &[u8], r: String, i: int)
    requires
        call_ensures(sha256_hex, (bytes,), r),
        0 <= i < 32,
    ensures
        r@.len() == 64,
        ({
            let value = |c: char|
                if c <= '9' {
                    c as int - '0' as int
                } else {
                    c as int - 'a' as int + 10
                };
            sha256(bytes@)[i] as int == 16 * value(r@[2 * i]) + value(r@[2 * i + 1])
        }),
{
    let b = sha256(bytes@)[i] as int;
    assert((2 * i) / 2 == i && (2 * i) % 2 == 0);
    assert((2 * i + 1) / 2 == i && (2 * i + 1) % 2 == 1);
    assert(0 <= b / 16 < 16 && 0 <= b % 16 < 16);
    assert(b == 16 * (b / 16) + b % 16);
}

/// Whether a line of a list gives a checksum for an asset: it is the first of at least two words,
/// and the second is the name of the asset, behind any number of stars.
pub open spec fn lists_asset(line: Seq<char>, asset: Seq<char>, hex: Seq<char>) -> bool {
    words(line).len() >= 2 && words(line)[0] == hex && without_prefixes(words(line)[1], "*"@)
        == asset
}

/// Whether the line at `k` is the first that gives a checksum for an asset.
pub open spec fn is_first_listing(
    lines: Seq<Seq<char>>,
    asset: Seq<char>,
    hex: Seq<char>,
    k: int,
) -> bool {
    &&& 0 <= k < lines.len()
    &&& lists_asset(lines[k], asset, hex)
    &&& forall|j: int, other: Seq<char>|
        0 <= j < k ==> !#[trigger] lists_asset(lines[j], asset, other)
}

proof fn lemma_written_in(lines: Seq<Seq<char>>, asset: Seq<char>) -> (at: int)
    ensures
        written_in(lines, asset) matches Some(hex) ==> is_first_listing(lines, asset, hex, at),
        written_in(lines, asset) is None ==> forall|j: int, other: Seq<char>|
            0 <= j < lines.len() ==> !#[trigger] lists_asset(lines[j], asset, other),
    decreases lines.len(),
{
    if lines.len() == 0 {
        0
    } else if written_in_line(lines[0], asset) is Some {
        0
    } else {
        let rest = lines.skip(1);
        let k = lemma_written_in(rest, asset);
        assert forall|j: int, other: Seq<char>|
            0 <= j < lines.len() && (j <= k || written_in(rest, asset) is None) implies !#[trigger]
        lists_asset(lines[j], asset, other) by {
            if j > 0 {
                assert(rest[j - 1] == lines[j]);
                assert(!lists_asset(rest[j - 1], asset, other));
            }
        }
        if written_in(rest, asset) is Some {
            assert(lines[k + 1] == rest[k]);
        }
        k + 1
    }
}

/// The checksum of an asset is the one on the first line that names it, in lower case; there is
/// none only where no line does.
pub proof fn checksum_is_on_the_assets_line(
    sums_text: &str,
    asset_name: &str,
    r: Option<String>,
)
    requires
        call_ensures(expected_sha_for, (sums_text, asset_name), r),
    ensures
        r matches Some(hex) ==> exists|k: int, written: Seq<char>|
            {
                &&& 0 <= k < lines_of(sums_text@).len()
                &&& #[trigger] lists_asset(lines_of(sums_text@)[k], asset_name@, written)
                &&& hex@ == lowercase(written)
                &&& forall|j: int, other: Seq<char>|
                    0 <= j < k ==> !#[trigger] lists_asset(
                        lines_of(sums_text@)[j],
                        asset_name@,
                        other,
                    )
            },
        r is None ==> forall|j: int, other: Seq<char>|
            0 <= j < lines_of(sums_text@).len() ==> !#[trigger] lists_asset(
                lines_of(sums_text@)[j],
                asset_name@,
                other,
            ),
{
    let list = lines_of(sums_text@);
    let k = lemma_written_in(list, asset_name@);
    if let Some(written) = written_in(list, asset_name@) {
        assert(lists_asset(list[k], asset_name@, written));
    }
}

/// An asset is verified only by a list that came, is UTF-8 and names the asset, with the digest of
/// the very bytes; an archive only by a checksum file that came, is UTF-8 and begins with it.
pub proof fn nothing_is_verified_without_a_checksum(
    bytes: &[u8],
    list: Result<Vec<u8>, String>,
    asset: &str,
    for_asset: Result<(), String>,
    for_archive: Result<(), String>,
)
    requires
        call_ensures(verify_asset, (bytes, list, asset), for_asset),
        call_ensures(verify_archive, (bytes, list), for_archive),
    ensures
        for_asset is Ok ==> (list matches Ok(file) && valid_utf8(file@) && exists|k: int, written: Seq<
            char,
        >|
            0 <= k < lines_of(decode_utf8(file@)).len() && #[trigger] lists_asset(
                lines_of(decode_utf8(file@))[k],
                asset@,
                written,
            ) && lowercase(trimmed(lowercase(written))) == hex_text(sha256(bytes@))),
        for_archive is Ok ==> (list matches Ok(file) && valid_utf8(file@) && lowercase(
            trimmed(
                if words(decode_utf8(file@)).len() > 0 {
                    words(decode_utf8(file@))[0]
                } else {
                    Seq::empty()
                },
            ),
        ) == hex_text(sha256(bytes@))),
        list is Err ==> for_asset is Err && for_archive is Err,
{
    if for_asset is Ok {
        if let Ok(file) = list {
            let all = lines_of(decode_utf8(file@));
            let k = lemma_written_in(all, asset@);
            let written = written_in(all, asset@)->0;
            assert(lists_asset(all[k], asset@, written));
        }
    }
}

/// Two digests are the same only where all their characters are, and only a checksum of 64 bytes
/// can be one.
pub proof fn digests_are_compared_whole(expected: &str, got: &str, r: Result<(), String>)
    requires
        call_ensures(compare_digests, (expected, got), r),
    ensures
        r is Ok <==> got@ == expected@ && encode_utf8(expected@).len() == 64,
{
}

/// A list of checksums is read as UTF-8 or not at all.
pub proof fn checksum_lists_are_text(reply: Result<Vec<u8>, String>, r: Result<String, String>)
    requires
        call_ensures(download_text, (reply,), r),
    ensures
        r is Ok <==> (reply matches Ok(bytes) && valid_utf8(bytes@)),
        reply matches Ok(bytes) ==> (r matches Ok(text) ==> text@ == decode_utf8(bytes@)),
        reply matches Err(e) ==> (r matches Err(f) && f@ == e@),
        reply is Ok ==> (r matches Err(e) ==> e@ == "Checksum file was not valid UTF-8."@),
{
}

} // verus!
