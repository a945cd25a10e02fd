//! GDScript language settings of an engine build.
use vstd::prelude::*;
use crate::gdscript::TokenType;
use crate::string::{all_digits, digits_value, dec_dv, is_digit_char, lemma_digits_value_prefix};
use crate::gdscript::tokenizer::reconstitute_text::{nat_text, push_nat, lemma_nat_text_value};
use crate::util::{str_chars, string_from_chars};

verus! {

/// GDScript 2.x tokenizer and parser settings of one engine build.
#[derive(Debug)]
pub struct GDScriptBuild {
    /// Version number in the bytecode header. Unset if this version doesn't have a bytecode format.
    pub tokenizer_version: Option<u32>,
    /// Order of tokens in the `Token` enum.
    pub tokens: Vec<TokenType>,
    /// Whether the new mixed indentation behavior applies.
    pub allow_mixed_indentation_when_multiline: bool,
    /// Whether to use the old or new invalid character error text.
    pub has_improved_invalid_character_error: bool,
    /// Whether numbers with a leading `+` or `-` are parsed as literals or an operator followed by a literal.
    pub has_literal_sign_handling: bool,
    /// Whether number literal parsing uses new behavior around `_` tokens.
    pub has_new_number_underscore_parsing: bool,
    /// Whether raw string literals (`r"text"`) exist.
    pub has_raw_strings: bool,
    /// Whether `when` exists in this version.
    pub has_when: bool,
    /// Whether `0x` and `0b` are valid on their own.
    pub need_digits_in_hex_and_binary: bool,
    /// Whether continuation lines handle whitespace properly.
    pub has_fixed_continuation_lines: bool,
    /// Whether literals with uppercase `0x` and `0b` are allowed.
    pub has_uppercase_number_types: bool,
    /// Whether this version has variadic functions and the `...` token.
    pub has_variadic_functions: bool,
    /// Whether this version expands tabs to 4 spaces in the span column.
    pub expands_tabs_in_span_column: bool,
    /// Whether a zero-width space (ZWSP) is counted as whitespace.
    pub allow_zwsp_as_whitespace: bool,
    /// Whether mixed indentation is allowed on blank lines.
    pub allow_mixed_indentation_on_blank_lines: bool,
    /// Whether this version contains an extra unused word in the header for binary format scripts.
    pub has_extra_word_in_binary_script_header: bool,
    /// Whether this version only updates multiline state when a '(' token is seen after a super call.
    pub has_fixed_multiline_handling_in_super_calls: bool,
    /// Whether this version bails early when parsing invalid super calls.
    pub has_early_bail_in_super_calls: bool,
    /// Whether to allow array/dictionary match patterns that span multiple lines without escapes.
    pub allow_multiline_array_dictionary_patterns: bool,
    /// Whether this version allows a trailing comma after the preload method.
    pub allow_preload_trailing_comma: bool,
    /// Whether this version has support for static variables and functions.
    pub has_static_variables: bool,
    /// Whether `x is not Type` is a supported syntax construct.
    pub has_is_not: bool,
    /// Whether to allow `var x get():` instead of just `var x get:`.
    pub allow_empty_parentheses_in_getter_declaration: bool,
    /// Whether match statements utilize the recovery suite.
    pub has_match_error_recovery: bool,
    /// Whether dictionaries have improved error recovery.
    pub has_dictionary_error_recovery: bool,
    /// Whether the loop variable in a `for ... in` loop can have type hints.
    pub has_typed_for_loops: bool,
    /// Whether expressions like `x.for` are allowed.
    pub allow_keywords_as_attributes: bool,
    /// Whether the parsing changes from PR #72979 exist.
    pub has_72979_annotation_parsing: bool,
    /// Whether the suite changes from #77744 exist.
    pub has_77744_suite_changes: bool,
}

/// An engine version of the form `X.Y.Z.W-flavor`.
#[derive(Debug, Clone, PartialEq, Eq, Hash)]
#[non_exhaustive]
pub struct VersionSpecifier {
    /// The major version number (first number).
    pub major: u32,
    /// The minor version number (second number).
    pub minor: u32,
    /// The patch version number (third number).
    pub patch: u32,
    /// The sub-patch version number (fourth number); official builds used it once.
    pub sub_patch: u32,
    /// The engine flavor.
    pub flavor: String,
}

/// A version specifier that could not be read.
#[derive(Debug, Clone, Copy, PartialEq, Eq)]
pub struct VersionSpecifierParseError;

/// The position of the first `c` in `s`, or `s.len()` when there is none.
pub open spec fn index_of_char(s: Seq<char>, c: char) -> int
    decreases s.len(),
{
    if s.len() == 0 {
        0
    } else if s[0] == c {
        0
    } else {
        1 + index_of_char(s.skip(1), c)
    }
}

/// The pieces of `s` between the `'.'` characters (one piece when there is none).
pub open spec fn split_dots(s: Seq<char>) -> Seq<Seq<char>>
    decreases s.len(),
{
    if s.len() == 0 {
        seq![Seq::<char>::empty()]
    } else {
        let parts = split_dots(s.drop_last());
        if s.last() == '.' {
            parts.push(Seq::empty())
        } else {
            parts.update(parts.len() - 1, parts.last().push(s.last()))
        }
    }
}

/// The value `u32::from_str` reads from `s`: an optional `+` followed by at least one ASCII
/// digit, with a value that fits a `u32`; `None` for anything else.
pub open spec fn u32_text_value(s: Seq<char>) -> Option<u32> {
    let d = if s.len() > 0 && s[0] == '+' { s.skip(1) } else { s };
    if d.len() > 0 && all_digits(d, dec_dv()) && digits_value(d, 10, dec_dv()) <= u32::MAX {
        Some(digits_value(d, 10, dec_dv()) as u32)
    } else {
        None
    }
}

/// The numbers and flavor that `VersionSpecifier::parse` reads from `s`: the text before the
/// first `-` is two to four numbers separated by `.` (missing ones are 0), the rest is the flavor.
pub open spec fn parse_version(s: Seq<char>) -> Option<(u32, u32, u32, u32, Seq<char>)> {
    let i = index_of_char(s, '-');
    let parts = split_dots(s.take(i));
    if i == s.len() || parts.len() < 2 || parts.len() > 4 {
        None
    } else if u32_text_value(parts[0]) is None || u32_text_value(parts[1]) is None
        || (parts.len() > 2 && u32_text_value(parts[2]) is None)
        || (parts.len() > 3 && u32_text_value(parts[3]) is None) {
        None
    } else {
        Some((
            u32_text_value(parts[0])->0,
            u32_text_value(parts[1])->0,
            if parts.len() > 2 { u32_text_value(parts[2])->0 } else { 0 },
            if parts.len() > 3 { u32_text_value(parts[3])->0 } else { 0 },
            s.skip(i + 1),
        ))
    }
}

/// The text of a version: `major.minor`, then `.patch` unless it is 0, then `.sub_patch` unless
/// it is 0, then `-` and the flavor.
pub open spec fn version_text(major: u32, minor: u32, patch: u32, sub_patch: u32, flavor: Seq<char>) -> Seq<char> {
    nat_text(major as nat) + seq!['.'] + nat_text(minor as nat)
        + (if patch != 0 { seq!['.'] + nat_text(patch as nat) } else { Seq::empty() })
        + (if sub_patch != 0 { seq!['.'] + nat_text(sub_patch as nat) } else { Seq::empty() })
        + seq!['-'] + flavor
}

/// `index_of_char` is the first position holding `c`.
proof fn lemma_index_of_char(s: Seq<char>, c: char)
    ensures
        0 <= index_of_char(s, c) <= s.len(),
        forall|k: int| 0 <= k < index_of_char(s, c) ==> s[k] != c,
        index_of_char(s, c) < s.len() ==> s[index_of_char(s, c)] == c,
    decreases s.len(),
{
    if s.len() > 0 && s[0] != c {
        lemma_index_of_char(s.skip(1), c);
        assert forall|k: int| 0 <= k < index_of_char(s, c) implies s[k] != c by {
            if k > 0 {
                assert(s[k] == s.skip(1)[k - 1]);
            }
        }
    }
}

/// A position characterized as the first `c` is `index_of_char`.
proof fn lemma_index_of_char_is(s: Seq<char>, c: char, i: int)
    requires
        0 <= i <= s.len(),
        forall|k: int| 0 <= k < i ==> s[k] != c,
        i < s.len() ==> s[i] == c,
    ensures
        index_of_char(s, c) == i,
{
    lemma_index_of_char(s, c);
    let j = index_of_char(s, c);
    if j < i {
        assert(s[j] != c);
    } else if i < j {
        assert(s[i] != c);
    }
}

/// Reads a `u32` as `u32::from_str` does.
fn parse_u32_text(p: &[char]) -> (r: Option<u32>)
    ensures
        r == u32_text_value(p@),
{
    let ghost s = p@;
    let start: usize = if p.len() > 0 && p[0] == '+' { 1 } else { 0 };
    let ghost d = if s.len() > 0 && s[0] == '+' { s.skip(1) } else { s };
    assert(d =~= s.skip(start as int));
    if start == p.len() {
        return None;
    }
    let mut v: u64 = 0;
    let mut k: usize = start;
    while k < p.len()
        invariant
            s == p@,
            start <= k <= p@.len(),
            d == s.skip(start as int),
            d == (if s.len() > 0 && s[0] == '+' { s.skip(1) } else { s }),
            all_digits(d.take(k - start), dec_dv()),
            v == digits_value(d.take(k - start), 10, dec_dv()),
            v <= u32::MAX,
        decreases p@.len() - k,
    {
        let c = p[k];
        let ghost j = k - start;
        assert(d[j] == c);
        if !('0' <= c && c <= '9') {
            proof {
                assert(dec_dv()(d[j]) < 0);
            }
            return None;
        }
        let digit = (c as u32 - '0' as u32) as u64;
        proof {
            assert(d.take(j + 1).drop_last() =~= d.take(j));
            assert(d.take(j + 1).last() == c);
            assert(all_digits(d.take(j + 1), dec_dv())) by {
                assert forall|i: int| 0 <= i < d.take(j + 1).len() implies #[trigger] dec_dv()(d.take(j + 1)[i]) >= 0 by {
                    if i < j {
                        assert(d.take(j + 1)[i] == d.take(j)[i]);
                    }
                }
            }
        }
        v = v * 10 + digit;
        k = k + 1;
        if v > 0xffff_ffffu64 {
            proof {
                if all_digits(d, dec_dv()) {
                    lemma_digits_value_prefix(d, (k - start) as int, 10, dec_dv());
                }
            }
            return None;
        }
    }
    assert(d.take(k - start) =~= d);
    Some(v as u32)
}

/// Splits `s` at each `'.'`.
fn split_dots_exec(s: &[char]) -> (r: Vec<Vec<char>>)
    ensures
        r@.len() == split_dots(s@).len(),
        forall|i: int| 0 <= i < r@.len() ==> (#[trigger] r@[i])@ == split_dots(s@)[i],
{
    let mut done: Vec<Vec<char>> = Vec::new();
    let mut current: Vec<char> = Vec::new();
    let mut k: usize = 0;
    proof {
        assert(s@.take(0) =~= Seq::<char>::empty());
    }
    while k < s.len()
        invariant
            k <= s@.len(),
            done@.len() + 1 == split_dots(s@.take(k as int)).len(),
            forall|i: int| 0 <= i < done@.len() ==> (#[trigger] done@[i])@ == split_dots(s@.take(k as int))[i],
            current@ == split_dots(s@.take(k as int)).last(),
        decreases s@.len() - k,
    {
        let c = s[k];
        let ghost prev = split_dots(s@.take(k as int));
        proof {
            assert(s@.take(k + 1).drop_last() =~= s@.take(k as int));
            assert(s@.take(k + 1).last() == c);
        }
        if c == '.' {
            let finished = current;
            done.push(finished);
            current = Vec::new();
        } else {
            current.push(c);
        }
        k = k + 1;
        proof {
            let next = split_dots(s@.take(k as int));
            assert forall|i: int| 0 <= i < done@.len() implies (#[trigger] done@[i])@ == next[i] by {
                if i < done@.len() - 1 || c != '.' {
                    assert(done@[i]@ == prev[i]);
                }
            }
        }
    }
    done.push(current);
    proof {
        assert(s@.take(s@.len() as int) =~= s@);
        assert forall|i: int| 0 <= i < done@.len() implies (#[trigger] done@[i])@ == split_dots(s@)[i] by {
            if i < done@.len() - 1 {
            }
        }
    }
    done
}

impl VersionSpecifier {
    pub fn new(major: u32, minor: u32, patch: u32, sub_patch: u32, flavor: String) -> (r: Self)
        ensures
            r.major == major,
            r.minor == minor,
            r.patch == patch,
            r.sub_patch == sub_patch,
            r.flavor@ == flavor@,
    {
        Self { major, minor, patch, sub_patch, flavor }
    }

    /// Reads a version specifier such as `4.2.1-stable`: two to four numbers separated by `.`
    /// (missing ones are 0), `-`, then the flavor.
    pub fn parse(s: &str) -> (r: Result<VersionSpecifier, VersionSpecifierParseError>)
        ensures
            match parse_version(s@) {
                Some((major, minor, patch, sub_patch, flavor)) => r matches Ok(v) && v.major == major
                    && v.minor == minor && v.patch == patch && v.sub_patch == sub_patch && v.flavor@ == flavor,
                None => r is Err,
            },
    {
        let chars = str_chars(s);
        let mut i: usize = 0;
        while i < chars.len() && chars[i] != '-'
            invariant
                i <= chars@.len(),
                forall|k: int| 0 <= k < i ==> chars@[k] != '-',
            decreases chars@.len() - i,
        {
            i = i + 1;
        }
        proof {
            lemma_index_of_char_is(s@, '-', i as int);
        }
        if i == chars.len() {
            return Err(VersionSpecifierParseError);
        }
        let version = vstd::slice::slice_subrange(chars.as_slice(), 0, i);
        assert(version@ =~= s@.take(i as int));
        let parts = split_dots_exec(version);
        if parts.len() < 2 || parts.len() > 4 {
            return Err(VersionSpecifierParseError);
        }
        let major = match parse_u32_text(parts[0].as_slice()) {
            Some(v) => v,
            None => {
                return Err(VersionSpecifierParseError);
            },
        };
        let minor = match parse_u32_text(parts[1].as_slice()) {
            Some(v) => v,
            None => {
                return Err(VersionSpecifierParseError);
            },
        };
        let patch = if parts.len() > 2 {
            match parse_u32_text(parts[2].as_slice()) {
                Some(v) => v,
                None => {
                    return Err(VersionSpecifierParseError);
                },
            }
        } else {
            0
        };
        let sub_patch = if parts.len() > 3 {
            match parse_u32_text(parts[3].as_slice()) {
                Some(v) => v,
                None => {
                    return Err(VersionSpecifierParseError);
                },
            }
        } else {
            0
        };
        let flavor_chars = vstd::slice::slice_subrange(chars.as_slice(), i + 1, chars.len());
        assert(flavor_chars@ =~= s@.skip(i + 1));
        Ok(VersionSpecifier { major, minor, patch, sub_patch, flavor: string_from_chars(flavor_chars) })
    }

    /// The text of this version, as `Display` writes it (see `version_text`).
    pub fn to_text(&self) -> (r: String)
        ensures
            r@ == version_text(self.major, self.minor, self.patch, self.sub_patch, self.flavor@),
    {
        let mut v: Vec<char> = Vec::new();
        push_nat(&mut v, self.major as u64);
        v.push('.');
        push_nat(&mut v, self.minor as u64);
        if self.patch != 0 {
            v.push('.');
            push_nat(&mut v, self.patch as u64);
        }
        if self.sub_patch != 0 {
            v.push('.');
            push_nat(&mut v, self.sub_patch as u64);
        }
        v.push('-');
        let flavor = str_chars(self.flavor.as_str());
        let mut k: usize = 0;
        let ghost base = v@;
        while k < flavor.len()
            invariant
                k <= flavor@.len(),
                flavor@ == self.flavor@,
                v@ == base + flavor@.take(k as int),
            decreases flavor@.len() - k,
        {
            v.push(flavor[k]);
            k = k + 1;
            assert(flavor@.take(k as int) =~= flavor@.take(k - 1).push(flavor@[k - 1]));
        }
        assert(flavor@.take(k as int) =~= flavor@);
        assert(v@ =~= version_text(self.major, self.minor, self.patch, self.sub_patch, self.flavor@));
        string_from_chars(v.as_slice())
    }
}

/// A piece with no `'.'` is split into itself.
proof fn lemma_split_dots_plain(a: Seq<char>)
    requires
        forall|k: int| 0 <= k < a.len() ==> a[k] != '.',
    ensures
        split_dots(a) == seq![a],
    decreases a.len(),
{
    if a.len() == 0 {
        assert(a =~= Seq::<char>::empty());
    } else {
        assert forall|k: int| 0 <= k < a.drop_last().len() implies a.drop_last()[k] != '.' by {
            assert(a.drop_last()[k] == a[k]);
        }
        assert(a.last() != '.');
        lemma_split_dots_plain(a.drop_last());
        assert(a.drop_last().push(a.last()) =~= a);
        assert(seq![a.drop_last()].update(0, a.drop_last().push(a.last())) =~= seq![a]);
    }
}

/// Appending `'.'` and a piece with no `'.'` adds that piece to the split.
proof fn lemma_split_dots_after(x: Seq<char>, y: Seq<char>)
    requires
        forall|k: int| 0 <= k < y.len() ==> y[k] != '.',
    ensures
        split_dots(x + seq!['.'] + y) == split_dots(x).push(y),
    decreases y.len(),
{
    let t = x + seq!['.'] + y;
    if y.len() == 0 {
        assert(y =~= Seq::<char>::empty());
        assert(t =~= x.push('.'));
        assert(x.push('.').drop_last() =~= x);
    } else {
        assert forall|k: int| 0 <= k < y.drop_last().len() implies y.drop_last()[k] != '.' by {
            assert(y.drop_last()[k] == y[k]);
        }
        assert(y.last() != '.');
        lemma_split_dots_after(x, y.drop_last());
        assert(t.drop_last() =~= x + seq!['.'] + y.drop_last());
        assert(t.last() == y.last());
        let parts = split_dots(x).push(y.drop_last());
        assert(y.drop_last().push(y.last()) =~= y);
        assert(parts.update(parts.len() - 1, parts.last().push(y.last())) =~= split_dots(x).push(y));
    }
}

/// The decimal text of a `u32` reads back as that `u32`, and holds only digits.
proof fn lemma_u32_text(n: u32)
    ensures
        u32_text_value(nat_text(n as nat)) == Some(n),
        forall|k: int| 0 <= k < nat_text(n as nat).len() ==> is_digit_char(#[trigger] nat_text(n as nat)[k]),
{
    let t = nat_text(n as nat);
    lemma_nat_text_value(n as nat);
    assert forall|k: int| 0 <= k < t.len() implies is_digit_char(#[trigger] t[k]) by {
        assert(dec_dv()(t[k]) >= 0);
    }
    assert(is_digit_char(t[0]));
}

/// The text of a version reads back as that version, unless the patch number is 0 and the
/// sub-patch number is not (the text then leaves the patch number out and the sub-patch number
/// takes its place).
pub proof fn law_version_text_parses_back(major: u32, minor: u32, patch: u32, sub_patch: u32, flavor: Seq<char>)
    requires
        patch != 0 || sub_patch == 0,
    ensures
        parse_version(version_text(major, minor, patch, sub_patch, flavor))
            == Some((major, minor, patch, sub_patch, flavor)),
{
    let a = nat_text(major as nat);
    let b = nat_text(minor as nat);
    let c = nat_text(patch as nat);
    let d = nat_text(sub_patch as nat);
    lemma_u32_text(major);
    lemma_u32_text(minor);
    lemma_u32_text(patch);
    lemma_u32_text(sub_patch);
    let ab = a + seq!['.'] + b;
    let abc = ab + seq!['.'] + c;
    let abcd = abc + seq!['.'] + d;
    let vpart = if patch != 0 { if sub_patch != 0 { abcd } else { abc } } else { ab };
    let text = version_text(major, minor, patch, sub_patch, flavor);
    assert(text =~= vpart + seq!['-'] + flavor);
    lemma_split_dots_plain(a);
    lemma_split_dots_after(a, b);
    lemma_split_dots_after(ab, c);
    lemma_split_dots_after(abc, d);
    assert(seq![a].push(b) =~= seq![a, b]);
    assert(forall|k: int| 0 <= k < vpart.len() ==> vpart[k] != '-') by {
        assert forall|k: int| 0 <= k < vpart.len() implies vpart[k] != '-' by {
            if k < a.len() {
                assert(vpart[k] == a[k]);
            } else if k == a.len() {
            } else if k < ab.len() {
                assert(vpart[k] == b[k - a.len() - 1]);
            } else if k == ab.len() {
            } else if k < abc.len() {
                assert(vpart[k] == c[k - ab.len() - 1]);
            } else if k == abc.len() {
            } else {
                assert(vpart[k] == d[k - abc.len() - 1]);
            }
        }
    }
    lemma_index_of_char_is(text, '-', vpart.len() as int);
    assert(text.take(vpart.len() as int) =~= vpart);
    assert(text.skip(vpart.len() as int + 1) =~= flavor);
}

impl core::str::FromStr for VersionSpecifier {
    type Err = VersionSpecifierParseError;

    fn from_str(s: &str) -> (r: Result<Self, Self::Err>)
        ensures
            match parse_version(s@) {
                Some((major, minor, patch, sub_patch, flavor)) => r matches Ok(v) && v.major == major
                    && v.minor == minor && v.patch == patch && v.sub_patch == sub_patch && v.flavor@ == flavor,
                None => r is Err,
            },
    {
        VersionSpecifier::parse(s)
    }
}

/// What to parse for: an engine build.
#[derive(Debug)]
#[non_exhaustive]
pub struct EngineBuild {
    /// Version info.
    pub version: VersionSpecifier,
    /// Commit hash this engine was built from, if known.
    pub commit: Option<String>,
    /// GDScript tokenizer and parser settings.
    pub gdscript: GDScriptBuild,
    /// Whether paths in pack files lack the `res://` prefix (official builds dropped it in 4.4).
    pub has_prefixless_pck_paths: bool,
}

impl EngineBuild {
    pub fn new(version: VersionSpecifier, commit: Option<String>, gdscript: GDScriptBuild,
        has_prefixless_pck_paths: bool) -> (r: Self)
        ensures
            r.version == version,
            r.commit == commit,
            r.gdscript == gdscript,
            r.has_prefixless_pck_paths == has_prefixless_pck_paths,
    {
        EngineBuild { version, commit, gdscript, has_prefixless_pck_paths }
    }
}

} // verus!
