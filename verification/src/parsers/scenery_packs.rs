//! The scenery-pack manifest codec.
//!
//! The manifest is a line-oriented text format: a header (`I`, a version
//! line, the `SCENERY` marker), then a body of blank lines and entry lines.
//! An entry line is `SCENERY_PACK <path>` or `SCENERY_PACK_DISABLED <path>`,
//! terminated by `\n` or `\r\n`. Decoding is permissive about blank-line
//! placement; encoding emits one canonical layout.

use vstd::prelude::*;
use vstd::string::StringExecFns;

use crate::parsers::inifile::ToIniFile;

verus! {

/// A scenery pack in the manifest: whether it is enabled, and its path
/// relative to the installation root directory. The path may contain spaces
/// but never a line break.
#[derive(Debug)]
pub struct SceneryPack {
    /// Whether or not this scenery pack is enabled.
    pub enabled: bool,
    /// Path to this scenery pack relative to the installation root
    /// directory.
    pub path: String,
}

/// The mathematical value of one entry: its flag and its path text.
#[verifier::ext_equal]
pub struct PackView {
    pub enabled: bool,
    pub path: Seq<char>,
}

impl View for SceneryPack {
    type V = PackView;

    open spec fn view(&self) -> PackView {
        PackView { enabled: self.enabled, path: self.path@ }
    }
}

impl Clone for SceneryPack {
    fn clone(&self) -> (r: Self)
        ensures
            r == *self,
    {
        SceneryPack { enabled: self.enabled, path: self.path.clone() }
    }
}

impl PartialEq for SceneryPack {
    fn eq(&self, other: &Self) -> bool {
        self.enabled == other.enabled && self.path == other.path
    }
}

impl vstd::std_specs::cmp::PartialEqSpecImpl for SceneryPack {
    open spec fn obeys_eq_spec() -> bool {
        true
    }

    open spec fn eq_spec(&self, other: &Self) -> bool {
        self.enabled == other.enabled && self.path@ == other.path@
    }
}

/// A decoded manifest document: the version number echoed back verbatim on
/// encode, and the entries in file order.
#[derive(Debug)]
pub struct SceneryPacksIni {
    pub version: u64,
    pub scenery_packs: Vec<SceneryPack>,
}

/// The mathematical value of a manifest document.
#[verifier::ext_equal]
pub struct IniView {
    pub version: u64,
    pub packs: Seq<PackView>,
}

/// The entry views of a sequence of entries, in the same order.
pub open spec fn views_of(packs: Seq<SceneryPack>) -> Seq<PackView> {
    packs.map_values(|p: SceneryPack| p@)
}

impl View for SceneryPacksIni {
    type V = IniView;

    open spec fn view(&self) -> IniView {
        IniView { version: self.version, packs: views_of(self.scenery_packs@) }
    }
}

impl Clone for SceneryPacksIni {
    fn clone(&self) -> (r: Self)
        ensures
            r.version == self.version,
            r.scenery_packs@ == self.scenery_packs@,
    {
        let packs = self.scenery_packs.clone();
        proof {
            assert(packs@ =~= self.scenery_packs@);
        }
        SceneryPacksIni { version: self.version, scenery_packs: packs }
    }
}

// ---------------------------------------------------------------------------
// The canonical encoding, as a spec-level function of the document value.
// ---------------------------------------------------------------------------

/// The decimal digit character for `d` (which must be below ten).
pub open spec fn digit_char(d: nat) -> char {
    if d == 0 {
        '0'
    } else if d == 1 {
        '1'
    } else if d == 2 {
        '2'
    } else if d == 3 {
        '3'
    } else if d == 4 {
        '4'
    } else if d == 5 {
        '5'
    } else if d == 6 {
        '6'
    } else if d == 7 {
        '7'
    } else if d == 8 {
        '8'
    } else {
        '9'
    }
}

/// The decimal digits of `n`, most significant first, with no leading zero
/// except for `n == 0` itself.
pub open spec fn dec_digits(n: nat) -> Seq<char>
    decreases n,
{
    if n < 10 {
        seq![digit_char(n)]
    } else {
        dec_digits(n / 10).push(digit_char(n % 10))
    }
}

/// The tag that opens an entry line.
pub open spec fn pack_tag(enabled: bool) -> Seq<char> {
    if enabled {
        "SCENERY_PACK"@
    } else {
        "SCENERY_PACK_DISABLED"@
    }
}

/// The text of one entry, without its line terminator.
pub open spec fn spec_encode_pack(p: PackView) -> Seq<char> {
    pack_tag(p.enabled) + " "@ + p.path
}

/// The text of one entry line, terminator included.
pub open spec fn spec_pack_line(p: PackView) -> Seq<char> {
    spec_encode_pack(p) + "\n"@
}

/// The body of the encoded document: one line per entry, in order.
pub open spec fn spec_encode_body(packs: Seq<PackView>) -> Seq<char>
    decreases packs.len(),
{
    if packs.len() == 0 {
        Seq::empty()
    } else {
        spec_pack_line(packs[0]) + spec_encode_body(packs.skip(1))
    }
}

/// The single canonical serialization of a document: the `I` marker line,
/// the version line, the `SCENERY` marker line, one blank line, then the
/// entry lines.
pub open spec fn spec_encode(d: IniView) -> Seq<char> {
    "I\n"@ + dec_digits(d.version as nat) + " Version\nSCENERY\n\n"@ + spec_encode_body(d.packs)
}

// ---------------------------------------------------------------------------
// Executable encoding.
// ---------------------------------------------------------------------------

fn push_digit(out: &mut String, d: u64)
    requires
        d < 10,
    ensures
        final(out)@ == old(out)@ + seq![digit_char(d as nat)],
{
    proof {
        reveal_strlit("0");
        reveal_strlit("1");
        reveal_strlit("2");
        reveal_strlit("3");
        reveal_strlit("4");
        reveal_strlit("5");
        reveal_strlit("6");
        reveal_strlit("7");
        reveal_strlit("8");
        reveal_strlit("9");
    }
    if d == 0 {
        out.append("0");
        proof {
            assert(("0")@ =~= seq![digit_char(d as nat)]);
        }
    } else if d == 1 {
        out.append("1");
        proof {
            assert(("1")@ =~= seq![digit_char(d as nat)]);
        }
    } else if d == 2 {
        out.append("2");
        proof {
            assert(("2")@ =~= seq![digit_char(d as nat)]);
        }
    } else if d == 3 {
        out.append("3");
        proof {
            assert(("3")@ =~= seq![digit_char(d as nat)]);
        }
    } else if d == 4 {
        out.append("4");
        proof {
            assert(("4")@ =~= seq![digit_char(d as nat)]);
        }
    } else if d == 5 {
        out.append("5");
        proof {
            assert(("5")@ =~= seq![digit_char(d as nat)]);
        }
    } else if d == 6 {
        out.append("6");
        proof {
            assert(("6")@ =~= seq![digit_char(d as nat)]);
        }
    } else if d == 7 {
        out.append("7");
        proof {
            assert(("7")@ =~= seq![digit_char(d as nat)]);
        }
    } else if d == 8 {
        out.append("8");
        proof {
            assert(("8")@ =~= seq![digit_char(d as nat)]);
        }
    } else {
        out.append("9");
        proof {
            assert(("9")@ =~= seq![digit_char(d as nat)]);
        }
    }
}

/// Appends the decimal digits of `v` to `out`.
fn push_dec_u64(out: &mut String, v: u64)
    ensures
        final(out)@ == old(out)@ + dec_digits(v as nat),
    decreases v,
{
    if v >= 10 {
        push_dec_u64(out, v / 10);
        push_digit(out, v % 10);
        proof {
            assert(dec_digits(v as nat) == dec_digits((v as nat) / 10).push(
                digit_char((v as nat) % 10),
            ));
            assert((v / 10) as nat == (v as nat) / 10);
            assert((v % 10) as nat == (v as nat) % 10);
            assert(final(out)@ =~= old(out)@ + dec_digits(v as nat));
        }
    } else {
        push_digit(out, v);
        proof {
            assert(dec_digits(v as nat) =~= seq![digit_char(v as nat)]);
            assert(final(out)@ =~= old(out)@ + dec_digits(v as nat));
        }
    }
}

impl ToIniFile for SceneryPack {
    open spec fn ini_repr(&self) -> Seq<char> {
        spec_encode_pack(self@)
    }

    fn write_ini(&self, out: &mut String) {
        if self.enabled {
            out.append("SCENERY_PACK");
        } else {
            out.append("SCENERY_PACK_DISABLED");
        }
        out.append(" ");
        out.append(self.path.as_str());
        proof {
            assert(out@ =~= old(out)@ + spec_encode_pack(self@));
        }
    }
}

/// `spec_encode_body` grows by one entry line when one more entry is taken.
proof fn lemma_encode_body_take_succ(packs: Seq<PackView>, i: int)
    requires
        0 <= i < packs.len(),
    ensures
        spec_encode_body(packs.take(i + 1)) == spec_encode_body(packs.take(i)) + spec_pack_line(
            packs[i],
        ),
    decreases i,
{
    if i == 0 {
        assert(packs.take(1).skip(1) =~= Seq::<PackView>::empty());
        assert(packs.take(0) =~= Seq::<PackView>::empty());
        assert(spec_encode_body(packs.take(1)) =~= spec_encode_body(packs.take(0)) + spec_pack_line(
            packs[0],
        ));
    } else {
        let t = packs.skip(1);
        lemma_encode_body_take_succ(t, i - 1);
        assert(packs.take(i + 1).skip(1) =~= t.take(i));
        assert(packs.take(i).skip(1) =~= t.take(i - 1));
        assert(packs.take(i + 1)[0] == packs[0]);
        assert(packs.take(i)[0] == packs[0]);
        assert(t[i - 1] == packs[i]);
        assert(spec_encode_body(packs.take(i + 1)) =~= spec_encode_body(packs.take(i))
            + spec_pack_line(packs[i]));
    }
}

// ---------------------------------------------------------------------------
// The grammar, as a spec-level parser over the text.
// ---------------------------------------------------------------------------

/// Where decoding stopped and which token it expected there. Offsets count
/// characters from the start of the input.
#[derive(Clone, Copy, Debug, PartialEq, Eq, Structural)]
pub enum ExpectedToken {
    /// The leading `I` marker.
    HeaderMarker,
    /// A line terminator (`\n` or `\r\n`).
    LineBreak,
    /// The version digits (missing, or too large for a 64-bit number).
    VersionNumber,
    /// The literal ` Version` after the version digits.
    VersionKeyword,
    /// The `SCENERY` marker line.
    SceneryMarker,
    /// One of the two entry tags at the start of a non-blank body line.
    EntryTag,
    /// The single space between the entry tag and the path.
    EntrySeparator,
    /// A non-empty path before the end of the line.
    PathText,
}

/// Decoding failed: the whole decode is aborted and no partial document is
/// returned.
#[derive(Clone, Copy, Debug, PartialEq, Eq, Structural)]
pub struct ParseError {
    pub offset: usize,
    pub expected: ExpectedToken,
}

/// Whether `c` is an ASCII decimal digit.
pub open spec fn is_digit(c: char) -> bool {
    48 <= c as u32 && c as u32 <= 57
}

/// The index just after a line terminator starting at `i`, or -1 where none
/// starts there.
pub open spec fn newline_end(s: Seq<char>, i: int) -> int {
    if 0 <= i < s.len() && s[i] == '\n' {
        i + 1
    } else if 0 <= i && i + 1 < s.len() && s[i] == '\r' && s[i + 1] == '\n' {
        i + 2
    } else {
        -1
    }
}

/// Whether the characters of `lit` stand in `s` at position `i`.
pub open spec fn match_at(s: Seq<char>, i: int, lit: Seq<char>) -> bool {
    &&& 0 <= i
    &&& i + lit.len() <= s.len()
    &&& forall|k: int| 0 <= k < lit.len() ==> s[i + k] == lit[k]
}

/// The first index at or after `i` holding a line-break character, or the
/// end of the text.
pub open spec fn path_end(s: Seq<char>, i: int) -> int
    decreases s.len() - i when 0 <= i <= s.len()
{
    if i >= s.len() {
        i
    } else if s[i] == '\n' || s[i] == '\r' {
        i
    } else {
        path_end(s, i + 1)
    }
}

/// The length of the maximal run of digits at `i`.
pub open spec fn digit_run_len(s: Seq<char>, i: int) -> int
    decreases s.len() - i when 0 <= i <= s.len()
{
    if i < s.len() && is_digit(s[i]) {
        1 + digit_run_len(s, i + 1)
    } else {
        0
    }
}

/// The numeric value of a sequence of decimal digits, most significant
/// first.
pub open spec fn digits_value(digs: Seq<char>) -> int
    decreases digs.len(),
{
    if digs.len() == 0 {
        0
    } else {
        digits_value(digs.drop_last()) * 10 + (digs.last() as u32 - 48)
    }
}

pub open spec fn dis_tag() -> Seq<char> {
    "SCENERY_PACK_DISABLED"@
}

pub open spec fn en_tag() -> Seq<char> {
    "SCENERY_PACK"@
}

/// Parses the tag, separator and path of one entry line at `i`. The
/// disabled tag is tried first, as the enabled tag is a prefix of it.
/// Returns the flag, the path text, and the index of the path's end (its
/// line terminator is not consumed). The path must not be empty.
pub open spec fn parse_entry_core(s: Seq<char>, i: int) -> Option<(bool, Seq<char>, int)> {
    let tag = if match_at(s, i, dis_tag()) {
        Some((false, i + dis_tag().len() as int))
    } else if match_at(s, i, en_tag()) {
        Some((true, i + en_tag().len() as int))
    } else {
        None
    };
    match tag {
        None => None,
        Some((enabled, at)) => {
            if !(at < s.len() && s[at] == ' ') {
                None
            } else {
                let start = at + 1;
                let pe = path_end(s, start);
                if pe == start {
                    None
                } else {
                    Some((enabled, s.subrange(start, pe), pe))
                }
            }
        },
    }
}

/// Parses one entry line at `i`, its line terminator included; the very
/// last entry of the text may stand without one.
pub open spec fn parse_entry(s: Seq<char>, i: int) -> Option<(bool, Seq<char>, int)> {
    match parse_entry_core(s, i) {
        None => None,
        Some((enabled, path, pe)) => {
            if pe == s.len() {
                Some((enabled, path, pe))
            } else if newline_end(s, pe) != -1 {
                Some((enabled, path, newline_end(s, pe)))
            } else {
                None
            }
        },
    }
}

/// Parses the body at `i`: any mix of blank lines and entry lines, to the
/// end of the text. Blank lines are discarded.
pub open spec fn parse_body(s: Seq<char>, i: int) -> Option<Seq<PackView>>
    decreases s.len() - i when 0 <= i <= s.len() via parse_body_decreases
{
    if i >= s.len() {
        Some(Seq::empty())
    } else if newline_end(s, i) != -1 {
        parse_body(s, newline_end(s, i))
    } else {
        match parse_entry(s, i) {
            None => None,
            Some((enabled, path, next)) => match parse_body(s, next) {
                None => None,
                Some(rest) => Some(seq![PackView { enabled, path }] + rest),
            },
        }
    }
}

#[via_fn]
proof fn parse_body_decreases(s: Seq<char>, i: int) {
    if 0 <= i && i < s.len() && newline_end(s, i) == -1 {
        if match_at(s, i, dis_tag()) || match_at(s, i, en_tag()) {
            let at = if match_at(s, i, dis_tag()) {
                i + dis_tag().len() as int
            } else {
                i + en_tag().len() as int
            };
            if at < s.len() && s[at] == ' ' {
                lemma_path_end_bounds(s, at + 1);
            }
        }
    }
}

/// Whether a version line (`digits " Version"`) stands at `i`, with digits
/// whose value fits in 64 bits.
pub open spec fn version_ok(s: Seq<char>, i: int) -> bool {
    let d = digit_run_len(s, i);
    &&& d > 0
    &&& digits_value(s.subrange(i, i + d)) <= u64::MAX as int
    &&& match_at(s, i + d, " Version"@)
}

/// The value of the version digits at `i`.
pub open spec fn version_value(s: Seq<char>, i: int) -> int {
    digits_value(s.subrange(i, i + digit_run_len(s, i)))
}

/// The index just after the version line at `i`.
pub open spec fn version_end(s: Seq<char>, i: int) -> int {
    i + digit_run_len(s, i) + " Version"@.len()
}

/// The whole document: header, version line, `SCENERY` marker, body.
/// `None` stands for a parse failure.
pub open spec fn spec_parse(s: Seq<char>) -> Option<IniView> {
    if !(s.len() >= 1 && s[0] == 'I') {
        None
    } else {
        let j1 = newline_end(s, 1);
        if j1 == -1 {
            None
        } else if !version_ok(s, j1) {
            None
        } else {
            let j2 = j1 + digit_run_len(s, j1) + " Version"@.len() as int;
            let j3 = newline_end(s, j2);
            if j3 == -1 {
                None
            } else if !match_at(s, j3, "SCENERY"@) {
                None
            } else {
                let j4 = newline_end(s, j3 + "SCENERY"@.len() as int);
                if j4 == -1 {
                    None
                } else {
                    match parse_body(s, j4) {
                        None => None,
                        Some(packs) => Some(
                            IniView { version: version_value(s, j1) as u64, packs },
                        ),
                    }
                }
            }
        }
    }
}

// ---------------------------------------------------------------------------
// Facts about the spec-level parser.
// ---------------------------------------------------------------------------

/// `path_end` stays between its start and the end of the text, the
/// characters before it are not line breaks, and the character at it (if
/// any) is one.
pub proof fn lemma_path_end_bounds(s: Seq<char>, i: int)
    requires
        0 <= i <= s.len(),
    ensures
        i <= path_end(s, i) <= s.len(),
        forall|t: int| i <= t < path_end(s, i) ==> s[t] != '\n' && s[t] != '\r',
        path_end(s, i) == s.len() || s[path_end(s, i)] == '\n' || s[path_end(s, i)] == '\r',
    decreases s.len() - i,
{
    if i < s.len() && s[i] != '\n' && s[i] != '\r' {
        lemma_path_end_bounds(s, i + 1);
    }
}

/// The digit run is in bounds, consists of digits, and is maximal.
pub proof fn lemma_digit_run(s: Seq<char>, i: int)
    requires
        0 <= i <= s.len(),
    ensures
        0 <= digit_run_len(s, i),
        i + digit_run_len(s, i) <= s.len(),
        forall|t: int| i <= t < i + digit_run_len(s, i) ==> is_digit(s[t]),
        i + digit_run_len(s, i) == s.len() || !is_digit(s[i + digit_run_len(s, i)]),
    decreases s.len() - i,
{
    if i < s.len() && is_digit(s[i]) {
        lemma_digit_run(s, i + 1);
    }
}

/// A sequence of digits has a non-negative value.
pub proof fn lemma_digits_value_nonneg(digs: Seq<char>)
    requires
        forall|k: int| 0 <= k < digs.len() ==> is_digit(digs[k]),
    ensures
        0 <= digits_value(digs),
    decreases digs.len(),
{
    if digs.len() > 0 {
        assert(forall|k: int|
            0 <= k < digs.drop_last().len() ==> is_digit(digs.drop_last()[k]));
        lemma_digits_value_nonneg(digs.drop_last());
    }
}

/// Extending a sequence of digits never lowers its value.
pub proof fn lemma_digits_value_prefix_le(digs: Seq<char>, m: int)
    requires
        0 <= m <= digs.len(),
        forall|k: int| 0 <= k < digs.len() ==> is_digit(digs[k]),
    ensures
        digits_value(digs.take(m)) <= digits_value(digs),
    decreases digs.len() - m,
{
    if m == digs.len() {
        assert(digs.take(m) =~= digs);
    } else {
        assert(digs.take(m + 1).drop_last() =~= digs.take(m));
        assert(digs.take(m + 1).last() == digs[m]);
        assert(forall|k: int| 0 <= k < digs.take(m).len() ==> is_digit(digs.take(m)[k]));
        lemma_digits_value_nonneg(digs.take(m));
        assert(digits_value(digs.take(m)) <= digits_value(digs.take(m + 1)));
        lemma_digits_value_prefix_le(digs, m + 1);
    }
}

// ---------------------------------------------------------------------------
// Executable decoding.
// ---------------------------------------------------------------------------

/// The digit's value, where `c` is a decimal digit.
fn char_digit(c: char) -> (r: Option<u64>)
    ensures
        match r {
            Some(d) => is_digit(c) && d as u32 == c as u32 - 48 && d < 10,
            None => !is_digit(c),
        },
{
    let u = c as u32;
    if 48 <= u && u <= 57 {
        Some((u - 48) as u64)
    } else {
        None
    }
}

/// The index just after a line terminator at `i`, if one starts there.
fn nl_end(s: &str, i: usize, n: usize) -> (r: Option<usize>)
    requires
        n == s@.len(),
        i <= n,
    ensures
        match r {
            Some(j) => newline_end(s@, i as int) == j as int && i < j <= n,
            None => newline_end(s@, i as int) == -1,
        },
{
    if i < n {
        let c = s.get_char(i);
        if c == '\n' {
            Some(i + 1)
        } else if c == '\r' && i + 1 < n && s.get_char(i + 1) == '\n' {
            Some(i + 2)
        } else {
            None
        }
    } else {
        None
    }
}

/// Whether the characters of `lit` stand in `s` at position `i`.
fn match_lit(s: &str, i: usize, n: usize, lit: &str) -> (b: bool)
    requires
        n == s@.len(),
        i <= n,
    ensures
        b == match_at(s@, i as int, lit@),
{
    let m = lit.unicode_len();
    if m > n - i {
        return false;
    }
    let mut k: usize = 0;
    while k < m
        invariant
            n == s@.len(),
            m == lit@.len(),
            i + m <= n,
            0 <= k <= m,
            forall|t: int| 0 <= t < k ==> s@[i + t] == lit@[t],
        decreases m - k,
    {
        if s.get_char(i + k) != lit.get_char(k) {
            assert(!match_at(s@, i as int, lit@));
            return false;
        }
        k += 1;
    }
    true
}

/// The first index at or after `i` holding a line-break character, or the
/// end of the text.
fn find_path_end(s: &str, i: usize, n: usize) -> (r: usize)
    requires
        n == s@.len(),
        i <= n,
    ensures
        r as int == path_end(s@, i as int),
        i <= r <= n,
{
    let mut j = i;
    while j < n
        invariant
            n == s@.len(),
            i <= j <= n,
            path_end(s@, i as int) == path_end(s@, j as int),
        decreases n - j,
    {
        let c = s.get_char(j);
        if c == '\n' || c == '\r' {
            return j;
        }
        j += 1;
    }
    j
}

/// Reads the maximal digit run at `i` as a 64-bit number; `None` where no
/// digit stands at `i` or the value does not fit.
fn parse_version_number(s: &str, i: usize, n: usize) -> (r: Option<(usize, u64)>)
    requires
        n == s@.len(),
        i <= n,
    ensures
        match r {
            Some((j, v)) => {
                &&& digit_run_len(s@, i as int) > 0
                &&& i < j <= n
                &&& j as int == i + digit_run_len(s@, i as int)
                &&& v as int == version_value(s@, i as int)
                &&& version_value(s@, i as int) <= u64::MAX as int
            },
            None => digit_run_len(s@, i as int) == 0 || version_value(s@, i as int)
                > u64::MAX as int,
        },
{
    proof {
        lemma_digit_run(s@, i as int);
    }
    let ghost run = digit_run_len(s@, i as int);
    let ghost digs = s@.subrange(i as int, i as int + run);
    let mut j = i;
    let mut acc: u64 = 0;
    loop
        invariant
            n == s@.len(),
            i <= j <= n,
            0 <= run,
            i + run <= n,
            run == digit_run_len(s@, i as int),
            digs == s@.subrange(i as int, i as int + run),
            forall|t: int| i <= t < i + run ==> is_digit(s@[t]),
            i + run == n || !is_digit(s@[i as int + run]),
            j as int - i as int + digit_run_len(s@, j as int) == run,
            acc as int == digits_value(s@.subrange(i as int, j as int)),
        ensures
            i <= j <= n,
            j as int - i as int + digit_run_len(s@, j as int) == run,
            acc as int == digits_value(s@.subrange(i as int, j as int)),
            j == n || !is_digit(s@[j as int]),
        decreases n - j,
    {
        if j >= n {
            break;
        }
        let c = s.get_char(j);
        let d = match char_digit(c) {
            Some(d) => d,
            None => {
                break;
            },
        };
        proof {
            lemma_digit_run(s@, j as int + 1);
            assert(digit_run_len(s@, j as int) == 1 + digit_run_len(s@, j as int + 1));
        }
        assert(j < i + run);
        if acc > (u64::MAX - d) / 10 {
            // The digits read so far already exceed the largest 64-bit
            // value, so the whole run does too.
            proof {
                assert(acc as int * 10 + d as int > u64::MAX as int) by (nonlinear_arith)
                    requires
                        acc as int > (u64::MAX as int - d as int) / 10,
                        0 <= d as int <= 9,
                        0 <= acc as int,
                ;
                let pre = s@.subrange(i as int, j as int + 1);
                assert(pre.drop_last() =~= s@.subrange(i as int, j as int));
                assert(pre.last() == s@[j as int]);
                assert(digits_value(pre) == acc as int * 10 + d as int);
                assert(pre =~= digs.take(j as int + 1 - i));
                assert(forall|k: int| 0 <= k < digs.len() ==> is_digit(digs[k]));
                lemma_digits_value_prefix_le(digs, j as int + 1 - i);
                assert(version_value(s@, i as int) > u64::MAX as int);
            }
            return None;
        }
        proof {
            assert(acc as int * 10 + d as int <= u64::MAX as int) by (nonlinear_arith)
                requires
                    acc as int <= (u64::MAX as int - d as int) / 10,
                    0 <= d as int <= 9,
                    0 <= acc as int,
            ;
        }
        acc = acc * 10 + d;
        j += 1;
        proof {
            let pre = s@.subrange(i as int, j as int);
            assert(pre.drop_last() =~= s@.subrange(i as int, j as int - 1));
            assert(pre.last() == s@[j as int - 1]);
        }
    }
    proof {
        assert(digit_run_len(s@, j as int) == 0);
        assert(j as int == i + run);
        assert(s@.subrange(i as int, j as int) == digs);
    }
    if j == i {
        return None;
    }
    Some((j, acc))
}

/// Parses the version digits and the ` Version` keyword at the start of
/// the input, returning the index just after the keyword and the version
/// value.
pub fn version(input: &str) -> (r: Result<(usize, u64), ParseError>)
    ensures
        match r {
            Ok((end, v)) => {
                &&& version_ok(input@, 0)
                &&& v as int == version_value(input@, 0)
                &&& end as int == version_end(input@, 0)
            },
            Err(_) => !version_ok(input@, 0),
        },
{
    let n = input.unicode_len();
    let (j, v) = match parse_version_number(input, 0, n) {
        Some(x) => x,
        None => {
            return Err(ParseError { offset: 0, expected: ExpectedToken::VersionNumber });
        },
    };
    if !match_lit(input, j, n, " Version") {
        return Err(ParseError { offset: j, expected: ExpectedToken::VersionKeyword });
    }
    let end = j + " Version".unicode_len();
    Ok((end, v))
}

/// Parses the leading entry tag: the disabled tag first (the enabled tag
/// is a prefix of it), then the enabled tag. Returns the index just after
/// the tag and the enabled flag.
pub fn scenery_pack_enabled(input: &str) -> (r: Result<(usize, bool), ParseError>)
    ensures
        match r {
            Ok((j, enabled)) => {
                if enabled {
                    &&& !match_at(input@, 0, dis_tag())
                    &&& match_at(input@, 0, en_tag())
                    &&& j == en_tag().len()
                } else {
                    &&& match_at(input@, 0, dis_tag())
                    &&& j == dis_tag().len()
                }
            },
            Err(_) => !match_at(input@, 0, dis_tag()) && !match_at(input@, 0, en_tag()),
        },
{
    let n = input.unicode_len();
    if match_lit(input, 0, n, "SCENERY_PACK_DISABLED") {
        Ok(("SCENERY_PACK_DISABLED".unicode_len(), false))
    } else if match_lit(input, 0, n, "SCENERY_PACK") {
        Ok(("SCENERY_PACK".unicode_len(), true))
    } else {
        Err(ParseError { offset: 0, expected: ExpectedToken::EntryTag })
    }
}

/// Reads the non-empty path text at the start of the input, up to (and not
/// including) the first line-break character. Fails on an empty path.
pub fn until_newline(input: &str) -> (r: Result<(usize, String), ParseError>)
    ensures
        match r {
            Ok((k, path)) => {
                &&& k as int == path_end(input@, 0)
                &&& k > 0
                &&& path@ == input@.subrange(0, k as int)
            },
            Err(_) => path_end(input@, 0) == 0,
        },
{
    let n = input.unicode_len();
    let k = find_path_end(input, 0, n);
    if k == 0 {
        return Err(ParseError { offset: 0, expected: ExpectedToken::PathText });
    }
    let path_str = input.substring_char(0, k);
    Ok((k, path_str.to_owned()))
}

/// Parses the tag, separator and path of one entry line at `i`; the line
/// terminator is not consumed.
fn parse_pack_at(s: &str, i: usize, n: usize) -> (r: Result<(usize, SceneryPack), ParseError>)
    requires
        n == s@.len(),
        i <= n,
    ensures
        match r {
            Ok((j, pack)) => {
                &&& parse_entry_core(s@, i as int) == Some((pack@.enabled, pack@.path, j as int))
                &&& i < j <= n
            },
            Err(_) => parse_entry_core(s@, i as int) is None,
        },
{
    let (enabled, at) = if match_lit(s, i, n, "SCENERY_PACK_DISABLED") {
        (false, i + "SCENERY_PACK_DISABLED".unicode_len())
    } else if match_lit(s, i, n, "SCENERY_PACK") {
        (true, i + "SCENERY_PACK".unicode_len())
    } else {
        return Err(ParseError { offset: i, expected: ExpectedToken::EntryTag });
    };
    if !(at < n && s.get_char(at) == ' ') {
        return Err(ParseError { offset: at, expected: ExpectedToken::EntrySeparator });
    }
    let start = at + 1;
    let pe = find_path_end(s, start, n);
    if pe == start {
        return Err(ParseError { offset: start, expected: ExpectedToken::PathText });
    }
    let path_str = s.substring_char(start, pe);
    let pack = SceneryPack { enabled: enabled, path: path_str.to_owned() };
    Ok((pe, pack))
}

/// Parses one entry line at the start of the input, leaving its line
/// terminator unconsumed, as a manifest body line is terminated either by
/// a line break or by the end of the text.
pub fn scenery_pack(input: &str) -> (r: Result<(usize, SceneryPack), ParseError>)
    ensures
        match r {
            Ok((j, pack)) => parse_entry_core(input@, 0) == Some(
                (pack@.enabled, pack@.path, j as int),
            ),
            Err(_) => parse_entry_core(input@, 0) is None,
        },
{
    let n = input.unicode_len();
    parse_pack_at(input, 0, n)
}

/// A path the canonical encoding can carry losslessly: non-empty, with no
/// line-break character.
pub open spec fn path_wf(path: Seq<char>) -> bool {
    &&& path.len() > 0
    &&& forall|k: int| 0 <= k < path.len() ==> path[k] != '\n' && path[k] != '\r'
}

/// Whether every entry of the list has a well-formed path.
pub open spec fn packs_wf(packs: Seq<PackView>) -> bool {
    forall|j: int| 0 <= j < packs.len() ==> path_wf(#[trigger] packs[j].path)
}

/// `prepend_packs(pre, r)` prefixes `pre` to a successful body parse.
pub open spec fn prepend_packs(pre: Seq<PackView>, r: Option<Seq<PackView>>) -> Option<
    Seq<PackView>,
> {
    match r {
        None => None,
        Some(rest) => Some(pre + rest),
    }
}

/// Decodes a whole manifest document. Returns the structured document
/// exactly when the text conforms to the grammar, and a `ParseError`
/// carrying the offset and the expected token otherwise.
pub fn scenery_packs_ini(input: &str) -> (r: Result<SceneryPacksIni, ParseError>)
    ensures
        match r {
            Ok(ini) => spec_parse(input@) == Some(ini@),
            Err(_) => spec_parse(input@) is None,
        },
{
    let n = input.unicode_len();
    if n == 0 || input.get_char(0) != 'I' {
        return Err(ParseError { offset: 0, expected: ExpectedToken::HeaderMarker });
    }
    let j1 = match nl_end(input, 1, n) {
        Some(j) => j,
        None => {
            return Err(ParseError { offset: 1, expected: ExpectedToken::LineBreak });
        },
    };
    let (after_digits, ver) = match parse_version_number(input, j1, n) {
        Some(x) => x,
        None => {
            return Err(ParseError { offset: j1, expected: ExpectedToken::VersionNumber });
        },
    };
    if !match_lit(input, after_digits, n, " Version") {
        return Err(ParseError { offset: after_digits, expected: ExpectedToken::VersionKeyword });
    }
    let j2 = after_digits + " Version".unicode_len();
    let j3 = match nl_end(input, j2, n) {
        Some(j) => j,
        None => {
            return Err(ParseError { offset: j2, expected: ExpectedToken::LineBreak });
        },
    };
    if !match_lit(input, j3, n, "SCENERY") {
        return Err(ParseError { offset: j3, expected: ExpectedToken::SceneryMarker });
    }
    let after_scenery = j3 + "SCENERY".unicode_len();
    let j4 = match nl_end(input, after_scenery, n) {
        Some(j) => j,
        None => {
            return Err(ParseError { offset: after_scenery, expected: ExpectedToken::LineBreak });
        },
    };
    let mut packs: Vec<SceneryPack> = Vec::new();
    let mut i = j4;
    proof {
        assert(input@[0] == 'I');
        assert(version_ok(input@, j1 as int));
        assert(views_of(packs@) =~= Seq::<PackView>::empty());
        match parse_body(input@, j4 as int) {
            Some(rest) => {
                assert(Seq::<PackView>::empty() + rest =~= rest);
            },
            None => {},
        }
    }
    while i < n
        invariant
            n == input@.len(),
            j4 <= i <= n,
            parse_body(input@, j4 as int) == prepend_packs(
                views_of(packs@),
                parse_body(input@, i as int),
            ),
            spec_parse(input@) == (match parse_body(input@, j4 as int) {
                None => None::<IniView>,
                Some(pk) => Some(IniView { version: ver, packs: pk }),
            }),
        decreases n - i,
    {
        if let Some(j) = nl_end(input, i, n) {
            i = j;
        } else {
            let (pe, pack) = match parse_pack_at(input, i, n) {
                Ok(x) => x,
                Err(e) => {
                    proof {
                        assert(parse_body(input@, i as int) is None);
                        assert(spec_parse(input@) is None);
                    }
                    return Err(e);
                },
            };
            let next = if pe == n {
                pe
            } else {
                match nl_end(input, pe, n) {
                    Some(j) => j,
                    None => {
                        proof {
                            assert(parse_entry(input@, i as int) is None);
                            assert(parse_body(input@, i as int) is None);
                            assert(spec_parse(input@) is None);
                        }
                        return Err(ParseError { offset: pe, expected: ExpectedToken::LineBreak });
                    },
                }
            };
            proof {
                let pv = PackView { enabled: pack@.enabled, path: pack@.path };
                assert(parse_entry(input@, i as int) == Some((pack@.enabled, pack@.path, next as int)));
                assert(parse_body(input@, i as int) == (match parse_body(input@, next as int) {
                    None => None::<Seq<PackView>>,
                    Some(rest) => Some(seq![pv] + rest),
                }));
                assert(views_of(packs@.push(pack)) =~= views_of(packs@) + seq![pack@]);
                assert(pack@ =~= pv);
                match parse_body(input@, next as int) {
                    Some(rest) => {
                        assert((views_of(packs@) + seq![pv]) + rest =~= views_of(packs@) + (
                        seq![pv] + rest));
                    },
                    None => {},
                }
            }
            packs.push(pack);
            i = next;
        }
    }
    proof {
        assert(parse_body(input@, n as int) == Some(Seq::<PackView>::empty()));
        assert(views_of(packs@) + Seq::<PackView>::empty() =~= views_of(packs@));
        assert(parse_body(input@, j4 as int) == Some(views_of(packs@)));
    }
    let ini = SceneryPacksIni { version: ver, scenery_packs: packs };
    proof {
        match spec_parse(input@) {
            Some(d) => {
                assert(d =~~= ini@);
            },
            None => {},
        }
    }
    Ok(ini)
}

impl ToIniFile for SceneryPacksIni {
    open spec fn ini_repr(&self) -> Seq<char> {
        spec_encode(self@)
    }

    fn write_ini(&self, out: &mut String) {
        out.append("I\n");
        push_dec_u64(out, self.version);
        out.append(" Version\nSCENERY\n\n");
        let ghost base = out@;
        let n = self.scenery_packs.len();
        for i in 0..n
            invariant
                n == self.scenery_packs.len(),
                out@ == base + spec_encode_body(views_of(self.scenery_packs@).take(i as int)),
        {
            proof {
                assert(spec_encode_body(views_of(self.scenery_packs@).take(0)) =~= Seq::<
                    char,
                >::empty());
            }
            self.scenery_packs[i].write_ini(out);
            out.append("\n");
            proof {
                lemma_encode_body_take_succ(views_of(self.scenery_packs@), i as int);
                assert(views_of(self.scenery_packs@)[i as int] == self.scenery_packs@[i as int]@);
                assert(out@ =~= base + spec_encode_body(
                    views_of(self.scenery_packs@).take(i + 1 as int),
                ));
            }
        }
        proof {
            assert(views_of(self.scenery_packs@).take(n as int) =~= views_of(self.scenery_packs@));
            assert(out@ =~= old(out)@ + spec_encode(self@));
        }
    }
}

} // verus!
