//! The laws relating the two directions of the manifest codec.
//!
//! Encoding is the single canonical serialization; decoding accepts it (and
//! more). The central statement is the round trip: decoding the encoding of
//! any document whose paths are non-empty and free of line breaks yields
//! exactly that document.

use vstd::prelude::*;

use crate::parsers::scenery_packs::{
    dec_digits, digit_char, digit_run_len, digits_value, dis_tag, en_tag, is_digit, match_at,
    newline_end, pack_tag, packs_wf, parse_body, parse_entry, parse_entry_core, path_end, path_wf,
    spec_encode, spec_encode_body, spec_pack_line, spec_parse, version_ok,
    version_value, IniView, PackView,
};

verus! {

/// Every character that `dec_digits` produces is a decimal digit, and at
/// least one is produced.
proof fn lemma_dec_digits_are_digits(n: nat)
    ensures
        dec_digits(n).len() >= 1,
        forall|k: int| 0 <= k < dec_digits(n).len() ==> is_digit(#[trigger] dec_digits(n)[k]),
    decreases n,
{
    assert(forall|d: nat| d < 10 ==> is_digit(#[trigger] digit_char(d)));
    if n >= 10 {
        lemma_dec_digits_are_digits(n / 10);
    }
}

/// Reading the decimal digits of `n` back as a number gives `n`.
proof fn lemma_dec_digits_value(n: nat)
    ensures
        digits_value(dec_digits(n)) == n,
    decreases n,
{
    assert(forall|d: nat| d < 10 ==> (#[trigger] digit_char(d)) as u32 == 48 + d);
    if n < 10 {
        assert(dec_digits(n) == seq![digit_char(n)]);
        assert(dec_digits(n).drop_last() =~= Seq::<char>::empty());
        assert(dec_digits(n).last() == digit_char(n));
        assert(digit_char(n) as u32 == 48 + n);
        assert(digits_value(Seq::<char>::empty()) == 0);
        assert(digits_value(dec_digits(n)) == digits_value(dec_digits(n).drop_last()) * 10 + (
        dec_digits(n).last() as u32 - 48));
        assert(digits_value(dec_digits(n)) == n);
    } else {
        lemma_dec_digits_value(n / 10);
        let tail = dec_digits(n / 10);
        assert(dec_digits(n) == tail.push(digit_char(n % 10)));
        assert(dec_digits(n).drop_last() =~= tail);
        assert(dec_digits(n).last() == digit_char(n % 10));
        assert(digits_value(dec_digits(n)) == digits_value(tail) * 10 + (n % 10));
    }
}

/// A run of exactly `m` digits bounded by a non-digit (or the end of the
/// text) is what `digit_run_len` measures.
proof fn lemma_digit_run_exact(s: Seq<char>, j: int, m: int)
    requires
        0 <= j,
        0 <= m,
        j + m <= s.len(),
        forall|t: int| j <= t < j + m ==> is_digit(s[t]),
        j + m == s.len() || !is_digit(s[j + m]),
    ensures
        digit_run_len(s, j) == m,
    decreases m,
{
    if m == 0 {
    } else {
        lemma_digit_run_exact(s, j + 1, m - 1);
    }
}

/// A stretch of `m` line-break-free characters bounded by a line break (or
/// the end of the text) is what `path_end` measures.
proof fn lemma_path_end_exact(s: Seq<char>, j: int, m: int)
    requires
        0 <= j,
        0 <= m,
        j + m <= s.len(),
        forall|t: int| j <= t < j + m ==> s[t] != '\n' && s[t] != '\r',
        j + m == s.len() || s[j + m] == '\n' || s[j + m] == '\r',
    ensures
        path_end(s, j) == j + m,
    decreases m,
{
    if m == 0 {
    } else {
        lemma_path_end_exact(s, j + 1, m - 1);
    }
}

/// Parsing the body of an encoded entry list from position `i` recovers
/// exactly that list, provided every path is non-empty and free of line
/// breaks.
proof fn lemma_parse_body_encode(s: Seq<char>, i: int, packs: Seq<PackView>)
    requires
        0 <= i <= s.len(),
        s.subrange(i, s.len() as int) == spec_encode_body(packs),
        packs_wf(packs),
    ensures
        parse_body(s, i) == Some(packs),
    decreases packs.len(),
{
    reveal_strlit("SCENERY_PACK");
    reveal_strlit("SCENERY_PACK_DISABLED");
    reveal_strlit(" ");
    reveal_strlit("\n");
    let body = spec_encode_body(packs);
    assert(body.len() == s.len() - i);
    if packs.len() == 0 {
        assert(i == s.len());
    } else {
        let p0 = packs[0];
        let rest = packs.skip(1);
        let tag = pack_tag(p0.enabled);
        let line = spec_pack_line(p0);
        let tl = tag.len() as int;
        let pl = p0.path.len() as int;
        let ll = line.len() as int;
        assert(path_wf(p0.path));
        assert(body == line + spec_encode_body(rest));
        assert(ll == tl + 1 + pl + 1);
        // How the characters of the first line stand within `s`.
        assert(forall|k: int| 0 <= k < body.len() ==> s[i + k] == body[k]);
        assert(forall|k: int| 0 <= k < ll ==> body[k] == line[k]);
        assert(forall|k: int| 0 <= k < tl ==> line[k] == tag[k]);
        assert(line[tl] == ' ');
        assert(forall|k: int| 0 <= k < pl ==> line[tl + 1 + k] == p0.path[k]);
        assert(line[tl + 1 + pl] == '\n');
        assert(forall|k: int| 0 <= k < tl ==> s[i + k] == tag[k]);
        assert(s[i + tl] == ' ');
        assert(forall|k: int| 0 <= k < pl ==> s[i + tl + 1 + k] == p0.path[k]);
        assert(s[i + tl + 1 + pl] == '\n');
        // The line is not blank: both tags open with `S`.
        assert(s[i + 0] == tag[0]);
        assert(s[i] == 'S');
        assert(newline_end(s, i) == -1);
        // The tag parses to the entry's flag: the disabled tag is tried
        // first, and the enabled tag's 13th position holds the separator
        // space, never the underscore the disabled tag has there.
        if p0.enabled {
            assert(s[i + 12] == ' ');
            assert(dis_tag()[12] == '_');
            assert(!match_at(s, i, dis_tag()));
            assert(match_at(s, i, en_tag()));
        } else {
            assert(match_at(s, i, dis_tag()));
        }
        let at = i + tl;
        let start = at + 1;
        // The path runs to the line terminator.
        assert forall|t: int| start <= t < start + pl implies s[t] != '\n' && s[t] != '\r' by {
            let k = t - start;
            assert(s[i + tl + 1 + k] == p0.path[k]);
            assert(p0.path[k] != '\n' && p0.path[k] != '\r');
        }
        lemma_path_end_exact(s, start, pl);
        let pe = start + pl;
        assert(s.subrange(start, pe) =~= p0.path);
        assert(parse_entry_core(s, i) == Some((p0.enabled, p0.path, pe)));
        assert(pe < s.len());
        assert(newline_end(s, pe) == pe + 1);
        assert(parse_entry(s, i) == Some((p0.enabled, p0.path, pe + 1)));
        // The rest of the text is the encoding of the remaining entries.
        let next = pe + 1;
        assert(next == i + ll);
        assert(spec_encode_body(rest).len() == body.len() - ll);
        assert forall|k: int| 0 <= k < s.len() - next implies s[next + k] == spec_encode_body(
            rest,
        )[k] by {
            assert(body[ll + k] == spec_encode_body(rest)[k]);
            assert(s[i + (ll + k)] == body[ll + k]);
            assert(next + k == i + (ll + k));
        }
        assert(s.subrange(next, s.len() as int) =~= spec_encode_body(rest));
        assert(forall|j: int| 0 <= j < rest.len() ==> packs[j + 1] == rest[j]);
        assert(packs_wf(rest));
        lemma_parse_body_encode(s, next, rest);
        assert(PackView { enabled: p0.enabled, path: p0.path } =~= p0);
        assert(seq![p0] + rest =~= packs);
        assert(parse_body(s, i) == Some(packs));
    }
}

/// The encoding always opens with the `I` marker line and carries the
/// `SCENERY` marker line followed by one blank line immediately after the
/// version line.
pub proof fn lemma_encode_canonical(d: IniView)
    ensures
        spec_encode(d).len() >= 20,
        spec_encode(d).subrange(0, 2) == "I\n"@,
        spec_encode(d).subrange(
            2 + dec_digits(d.version as nat).len() as int + 9,
            2 + dec_digits(d.version as nat).len() as int + 18,
        ) == "SCENERY\n\n"@,
{
    reveal_strlit("I\n");
    reveal_strlit(" Version\nSCENERY\n\n");
    reveal_strlit("SCENERY\n\n");
    let s = spec_encode(d);
    let dec = dec_digits(d.version as nat);
    let dl = dec.len() as int;
    lemma_dec_digits_are_digits(d.version as nat);
    let mid = " Version\nSCENERY\n\n"@;
    assert(forall|k: int| 0 <= k < 2 ==> s[k] == "I\n"@[k]);
    assert(forall|k: int| 0 <= k < 18 ==> s[2 + dl + k] == mid[k]);
    assert(s.subrange(0, 2) =~= "I\n"@);
    assert(forall|k: int| 0 <= k < 9 ==> mid[9 + k] == "SCENERY\n\n"@[k]);
    assert(s.subrange(2 + dl + 9, 2 + dl + 18) =~= "SCENERY\n\n"@);
}

/// The round trip: decoding the canonical encoding of any document whose
/// paths are non-empty and free of line breaks yields exactly that
/// document, version and entries alike.
pub proof fn lemma_round_trip(d: IniView)
    requires
        packs_wf(d.packs),
    ensures
        spec_parse(spec_encode(d)) == Some(d),
{
    reveal_strlit("I\n");
    reveal_strlit(" Version\nSCENERY\n\n");
    reveal_strlit(" Version");
    reveal_strlit("SCENERY");
    let s = spec_encode(d);
    let dec = dec_digits(d.version as nat);
    let dl = dec.len() as int;
    let mid = " Version\nSCENERY\n\n"@;
    let body = spec_encode_body(d.packs);
    lemma_dec_digits_are_digits(d.version as nat);
    lemma_dec_digits_value(d.version as nat);
    assert(s.len() == 2 + dl + 18 + body.len());
    assert(forall|k: int| 0 <= k < 2 ==> s[k] == "I\n"@[k]);
    assert(forall|k: int| 0 <= k < dl ==> s[2 + k] == dec[k]);
    assert(forall|k: int| 0 <= k < 18 ==> s[2 + dl + k] == mid[k]);
    assert(forall|k: int| 0 <= k < body.len() ==> s[2 + dl + 18 + k] == body[k]);
    // The header: `I` and its line terminator.
    assert(s[0] == 'I');
    assert(s[1] == '\n');
    assert(newline_end(s, 1) == 2);
    // The version line: the digit run is exactly the encoded digits.
    assert(forall|t: int| 2 <= t < 2 + dl ==> is_digit(s[t]));
    assert(s[2 + dl] == ' ');
    assert(!is_digit(' '));
    lemma_digit_run_exact(s, 2, dl);
    assert(s.subrange(2, 2 + dl) =~= dec);
    assert(version_value(s, 2) == d.version);
    assert(forall|k: int| 0 <= k < 8 ==> mid[k] == " Version"@[k]);
    assert(match_at(s, 2 + dl, " Version"@));
    assert(version_ok(s, 2));
    // The `SCENERY` marker line and the blank line after it.
    let j2 = 2 + dl + 8;
    assert(s[j2] == '\n');
    assert(newline_end(s, j2) == j2 + 1);
    let j3 = j2 + 1;
    assert(forall|k: int| 0 <= k < 7 ==> mid[9 + k] == "SCENERY"@[k]);
    assert(match_at(s, j3, "SCENERY"@));
    assert(s[j3 + 7] == '\n');
    assert(newline_end(s, j3 + 7) == j3 + 8);
    let j4 = j3 + 8;
    assert(s[j4] == '\n');
    assert(newline_end(s, j4) == j4 + 1);
    // The body parses back to the entries.
    assert(s.subrange(j4 + 1, s.len() as int) =~= body);
    lemma_parse_body_encode(s, j4 + 1, d.packs);
    assert(parse_body(s, j4) == Some(d.packs));
    match spec_parse(s) {
        Some(e) => {
            assert(e =~= d);
        },
        None => {
            assert(false);
        },
    }
}

} // verus!
