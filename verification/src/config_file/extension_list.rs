//! The extension list (`.godot/extension_list.cfg`): one GDExtension path per line.
use vstd::prelude::*;
use crate::util::{str_chars, string_from_chars, push_char};

verus! {

/// The `White_Space` Unicode property, which `char::is_whitespace` tests.
pub open spec fn is_unicode_whitespace(c: char) -> bool {
    let ch = c as u32;
    (0x09 <= ch && ch <= 0x0d) || ch == 0x20 || ch == 0x85 || ch == 0xa0 || ch == 0x1680 || (0x2000
        <= ch && ch <= 0x200a) || ch == 0x2028 || ch == 0x2029 || ch == 0x202f || ch == 0x205f || ch
        == 0x3000
}

/// Whether `c` has the `White_Space` property.
pub fn is_whitespace(c: char) -> (r: bool)
    ensures
        r == is_unicode_whitespace(c),
{
    let ch = c as u32;
    (0x09 <= ch && ch <= 0x0d) || ch == 0x20 || ch == 0x85 || ch == 0xa0 || ch == 0x1680 || (0x2000
        <= ch && ch <= 0x200a) || ch == 0x2028 || ch == 0x2029 || ch == 0x202f || ch == 0x205f || ch
        == 0x3000
}

/// Number of leading whitespace characters.
pub open spec fn leading_ws(s: Seq<char>) -> int
    decreases s.len(),
{
    if s.len() > 0 && is_unicode_whitespace(s[0]) { 1 + leading_ws(s.skip(1)) } else { 0 }
}

/// Number of trailing whitespace characters.
pub open spec fn trailing_ws(s: Seq<char>) -> int
    decreases s.len(),
{
    if s.len() > 0 && is_unicode_whitespace(s.last()) { 1 + trailing_ws(s.drop_last()) } else { 0 }
}

/// `s` with leading and trailing whitespace removed (`str::trim`).
pub open spec fn trim(s: Seq<char>) -> Seq<char> {
    if leading_ws(s) == s.len() {
        Seq::empty()
    } else {
        s.subrange(leading_ws(s), s.len() - trailing_ws(s))
    }
}

/// The pieces of `s` between `\n` characters (there is always at least one piece).
pub open spec fn split_lines(s: Seq<char>) -> Seq<Seq<char>>
    decreases s.len(),
{
    if s.len() == 0 {
        seq![Seq::empty()]
    } else {
        let r = split_lines(s.drop_last());
        if s.last() == '\n' {
            r.push(Seq::empty())
        } else {
            r.update(r.len() - 1, r.last().push(s.last()))
        }
    }
}

/// The trimmed pieces that are not empty, in order.
pub open spec fn nonempty_trimmed(segs: Seq<Seq<char>>) -> Seq<Seq<char>>
    decreases segs.len(),
{
    if segs.len() == 0 {
        Seq::empty()
    } else {
        let r = nonempty_trimmed(segs.drop_last());
        if trim(segs.last()).len() > 0 { r.push(trim(segs.last())) } else { r }
    }
}

/// The entries `ExtensionList::parse` reads: each line trimmed, empty lines dropped.
pub open spec fn spec_parse_extension_list(data: Seq<char>) -> Seq<Seq<char>> {
    nonempty_trimmed(split_lines(data))
}

/// The entries joined with `\n` between them.
pub open spec fn join_lines(es: Seq<Seq<char>>) -> Seq<char>
    decreases es.len(),
{
    if es.len() == 0 {
        Seq::empty()
    } else if es.len() == 1 {
        es[0]
    } else {
        join_lines(es.drop_last()) + seq!['\n'] + es.last()
    }
}

/// The list of enabled GDExtension paths.
#[derive(Debug, Default)]
pub struct ExtensionList(pub Vec<String>);

/// The abstract contents of a list of strings.
pub open spec fn strings_view(v: Seq<String>) -> Seq<Seq<char>> {
    v.map_values(|s: String| s@)
}

impl View for ExtensionList {
    type V = Seq<Seq<char>>;

    open spec fn view(&self) -> Seq<Seq<char>> {
        strings_view(self.0@)
    }
}

/// Characterises `leading_ws`.
proof fn lemma_leading_ws(s: Seq<char>)
    ensures
        0 <= leading_ws(s) <= s.len(),
        forall|i: int| 0 <= i < leading_ws(s) ==> is_unicode_whitespace(#[trigger] s[i]),
        leading_ws(s) < s.len() ==> !is_unicode_whitespace(s[leading_ws(s)]),
    decreases s.len(),
{
    if s.len() > 0 && is_unicode_whitespace(s[0]) {
        lemma_leading_ws(s.skip(1));
        assert forall|i: int| 0 <= i < leading_ws(s) implies is_unicode_whitespace(#[trigger] s[i]) by {
            if i > 0 {
                assert(s[i] == s.skip(1)[i - 1]);
            }
        }
        if leading_ws(s) < s.len() {
            assert(s[leading_ws(s)] == s.skip(1)[leading_ws(s.skip(1))]);
        }
    }
}

/// Characterises `trailing_ws`.
proof fn lemma_trailing_ws(s: Seq<char>)
    ensures
        0 <= trailing_ws(s) <= s.len(),
        forall|i: int| s.len() - trailing_ws(s) <= i < s.len() ==> is_unicode_whitespace(#[trigger] s[i]),
        trailing_ws(s) < s.len() ==> !is_unicode_whitespace(s[s.len() - trailing_ws(s) - 1]),
    decreases s.len(),
{
    if s.len() > 0 && is_unicode_whitespace(s.last()) {
        lemma_trailing_ws(s.drop_last());
        assert forall|i: int| s.len() - trailing_ws(s) <= i < s.len() implies is_unicode_whitespace(#[trigger] s[i]) by {
            if i < s.len() - 1 {
                assert(s[i] == s.drop_last()[i]);
            }
        }
        if trailing_ws(s) < s.len() {
            assert(s[s.len() - trailing_ws(s) - 1] == s.drop_last()[s.drop_last().len() - trailing_ws(s.drop_last()) - 1]);
        }
    }
}

/// A whitespace-only sequence has as many trailing as leading whitespace characters.
proof fn lemma_trim_bounds(s: Seq<char>)
    requires
        leading_ws(s) < s.len(),
    ensures
        leading_ws(s) < s.len() - trailing_ws(s),
{
    lemma_leading_ws(s);
    lemma_trailing_ws(s);
    let a = leading_ws(s);
    if a >= s.len() - trailing_ws(s) {
        assert(is_unicode_whitespace(s[a]));
    }
}

/// The characters of `s` with leading and trailing whitespace removed.
fn trim_chars(s: &Vec<char>) -> (r: Vec<char>)
    ensures
        r@ == trim(s@),
{
    proof {
        lemma_leading_ws(s@);
        lemma_trailing_ws(s@);
    }
    let n = s.len();
    let mut a: usize = 0;
    while a < n && is_whitespace(s[a])
        invariant
            n == s@.len(),
            a <= n,
            a <= leading_ws(s@),
            0 <= leading_ws(s@) <= s@.len(),
            forall|i: int| 0 <= i < leading_ws(s@) ==> is_unicode_whitespace(#[trigger] s@[i]),
            leading_ws(s@) < s@.len() ==> !is_unicode_whitespace(s@[leading_ws(s@)]),
        decreases n - a,
    {
        a = a + 1;
    }
    assert(a == leading_ws(s@));
    if a == n {
        return Vec::new();
    }
    proof { lemma_trim_bounds(s@); }
    let mut b: usize = n;
    while b > a && is_whitespace(s[b - 1])
        invariant
            n == s@.len(),
            a < n,
            a == leading_ws(s@),
            a < s@.len() - trailing_ws(s@),
            a <= b <= n,
            n - b <= trailing_ws(s@),
            0 <= trailing_ws(s@) <= s@.len(),
            forall|i: int| s@.len() - trailing_ws(s@) <= i < s@.len() ==> is_unicode_whitespace(#[trigger] s@[i]),
            trailing_ws(s@) < s@.len() ==> !is_unicode_whitespace(s@[s@.len() - trailing_ws(s@) - 1]),
        decreases b,
    {
        b = b - 1;
    }
    assert(b == n - trailing_ws(s@));
    let mut r: Vec<char> = Vec::new();
    let mut i: usize = a;
    while i < b
        invariant
            a <= i <= b,
            b <= s@.len(),
            r@ == s@.subrange(a as int, i as int),
        decreases b - i,
    {
        r.push(s[i]);
        i = i + 1;
        assert(r@ =~= s@.subrange(a as int, i as int));
    }
    r
}

impl ExtensionList {
    /// Reads an extension list: every line, trimmed, that is not empty.
    pub fn parse(data: &str) -> (r: ExtensionList)
        ensures
            r@ == spec_parse_extension_list(data@),
    {
        let chars = str_chars(data);
        let mut out: Vec<String> = Vec::new();
        let mut cur: Vec<char> = Vec::new();
        let ghost mut done: Seq<Seq<char>> = Seq::empty();
        let mut i: usize = 0;
        proof {
            assert(chars@.take(0) =~= Seq::<char>::empty());
            assert(strings_view(out@) =~= Seq::<Seq<char>>::empty());
        }
        while i < chars.len()
            invariant
                i <= chars@.len(),
                chars@ == data@,
                split_lines(chars@.take(i as int)) == done.push(cur@),
                strings_view(out@) == nonempty_trimmed(done),
            decreases chars@.len() - i,
        {
            let c = chars[i];
            proof {
                assert(chars@.take(i + 1).drop_last() =~= chars@.take(i as int));
                assert(chars@.take(i + 1).last() == c);
            }
            if c == '\n' {
                let t = trim_chars(&cur);
                let ghost prev = out@;
                if t.len() > 0 {
                    out.push(string_from_chars(t.as_slice()));
                    assert(strings_view(out@) =~= strings_view(prev).push(t@));
                }
                proof {
                    assert(done.push(cur@).drop_last() =~= done);
                    done = done.push(cur@);
                }
                cur = Vec::new();
            } else {
                cur.push(c);
                proof {
                    assert(done.push(cur@.drop_last()).update(done.len() as int, cur@) =~= done.push(cur@));
                }
            }
            i = i + 1;
        }
        let t = trim_chars(&cur);
        let ghost prev = out@;
        if t.len() > 0 {
            out.push(string_from_chars(t.as_slice()));
            assert(strings_view(out@) =~= strings_view(prev).push(t@));
        }
        proof {
            assert(chars@.take(i as int) =~= chars@);
            assert(done.push(cur@).drop_last() =~= done);
        }
        ExtensionList(out)
    }

    /// The entries joined with `\n`.
    pub fn write(&mut self) -> (r: String)
        ensures
            r@ == join_lines(old(self)@),
            final(self)@ == old(self)@,
    {
        let mut r = String::new();
        let mut i: usize = 0;
        while i < self.0.len()
            invariant
                i <= self.0@.len(),
                self@ == old(self)@,
                self@.len() == self.0@.len(),
                r@ == join_lines(self@.take(i as int)),
            decreases self.0@.len() - i,
        {
            let ghost before = r@;
            if i > 0 {
                push_char(&mut r, '\n');
            }
            let cs = str_chars(self.0[i].as_str());
            let mut k: usize = 0;
            let ghost mid = r@;
            while k < cs.len()
                invariant
                    k <= cs@.len(),
                    r@ == mid + cs@.take(k as int),
                decreases cs@.len() - k,
            {
                push_char(&mut r, cs[k]);
                k = k + 1;
                assert(r@ =~= mid + cs@.take(k as int));
            }
            proof {
                assert(cs@.take(k as int) =~= cs@);
                assert(self@.take(i + 1).drop_last() =~= self@.take(i as int));
                assert(self@.take(i + 1).last() == self.0@[i as int]@);
                if i == 0 {
                    assert(self@.take(1) =~= seq![self.0@[0]@]);
                    assert(r@ =~= self.0@[0]@);
                } else {
                    assert(r@ =~= before + seq!['\n'] + self.0@[i as int]@);
                }
            }
            i = i + 1;
        }
        proof {
            assert(self@.take(i as int) =~= self@);
        }
        r
    }

    /// Appends the entries of `other`.
    pub fn merge(&mut self, other: &ExtensionList)
        ensures
            final(self)@ == old(self)@ + other@,
    {
        let mut i: usize = 0;
        while i < other.0.len()
            invariant
                i <= other.0@.len(),
                other@.len() == other.0@.len(),
                self@ == old(self)@ + other@.take(i as int),
            decreases other.0@.len() - i,
        {
            let ghost prev = self.0@;
            let item = other.0[i].clone();
            self.0.push(item);
            proof {
                assert(strings_view(prev.push(item)) =~= strings_view(prev).push(item@));
                assert(other@.take(i + 1) =~= other@.take(i as int).push(other@[i as int]));
                assert(self@ =~= old(self)@ + other@.take(i + 1));
            }
            i = i + 1;
        }
        proof {
            assert(other@.take(i as int) =~= other@);
        }
    }

    /// Parses `data` as an extension list and appends its entries.
    pub fn merge_decode(&mut self, data: &str)
        ensures
            final(self)@ == old(self)@ + spec_parse_extension_list(data@),
    {
        let other = Self::parse(data);
        self.merge(&other);
    }
}

/// A piece without line feeds is a single line.
proof fn lemma_split_lines_single(s: Seq<char>)
    requires
        !s.contains('\n'),
    ensures
        split_lines(s) == seq![s],
    decreases s.len(),
{
    if s.len() > 0 {
        assert(!s.drop_last().contains('\n')) by {
            if s.drop_last().contains('\n') {
                let i = choose|i: int| 0 <= i < s.drop_last().len() && s.drop_last()[i] == '\n';
                assert(s[i] == '\n');
            }
        }
        lemma_split_lines_single(s.drop_last());
        assert(s.last() != '\n') by {
            if s.last() == '\n' {
                assert(s[s.len() - 1] == '\n');
            }
        }
        let r = split_lines(s.drop_last());
        assert(r == seq![s.drop_last()]);
        assert(s.drop_last().push(s.last()) =~= s);
        assert(r.update(r.len() - 1, r.last().push(s.last())) =~= seq![s]);
    } else {
        assert(s =~= Seq::<char>::empty());
    }
}

/// Splitting text, a line feed and a piece without line feeds gives the lines of the text and
/// then the piece.
proof fn lemma_split_lines_append(p: Seq<char>, s: Seq<char>)
    requires
        !s.contains('\n'),
    ensures
        split_lines(p + seq!['\n'] + s) == split_lines(p).push(s),
    decreases s.len(),
{
    let x = p + seq!['\n'] + s;
    if s.len() == 0 {
        assert(x.drop_last() =~= p);
        assert(x.last() == '\n');
        assert(s =~= Seq::<char>::empty());
    } else {
        assert(!s.drop_last().contains('\n')) by {
            if s.drop_last().contains('\n') {
                let i = choose|i: int| 0 <= i < s.drop_last().len() && s.drop_last()[i] == '\n';
                assert(s[i] == '\n');
            }
        }
        lemma_split_lines_append(p, s.drop_last());
        assert(x.drop_last() =~= p + seq!['\n'] + s.drop_last());
        assert(x.last() == s.last());
        assert(s.last() != '\n') by {
            if s.last() == '\n' {
                assert(s[s.len() - 1] == '\n');
            }
        }
        let r = split_lines(x.drop_last());
        assert(r == split_lines(p).push(s.drop_last()));
        assert(s.drop_last().push(s.last()) =~= s);
        assert(r.update(r.len() - 1, r.last().push(x.last())) =~= split_lines(p).push(s));
    }
}

/// Entries without line feeds, joined with line feeds, split back into those entries.
proof fn lemma_split_join(es: Seq<Seq<char>>)
    requires
        es.len() > 0,
        forall|i: int| 0 <= i < es.len() ==> !(#[trigger] es[i]).contains('\n'),
    ensures
        split_lines(join_lines(es)) == es,
    decreases es.len(),
{
    if es.len() == 1 {
        lemma_split_lines_single(es[0]);
        assert(seq![es[0]] =~= es);
    } else {
        lemma_split_join(es.drop_last());
        assert(!es.last().contains('\n')) by {
            assert(es.last() == es[es.len() - 1]);
        }
        lemma_split_lines_append(join_lines(es.drop_last()), es.last());
        assert(es.drop_last().push(es.last()) =~= es);
    }
}

/// Entries that are their own trim and not empty are kept as they are.
proof fn lemma_nonempty_trimmed_keeps(es: Seq<Seq<char>>)
    requires
        forall|i: int| 0 <= i < es.len() ==> trim(#[trigger] es[i]) == es[i] && es[i].len() > 0,
    ensures
        nonempty_trimmed(es) == es,
    decreases es.len(),
{
    if es.len() > 0 {
        lemma_nonempty_trimmed_keeps(es.drop_last());
        assert(trim(es.last()) == es.last()) by {
            assert(es.last() == es[es.len() - 1]);
        }
        assert(es.drop_last().push(es.last()) =~= es);
    }
}

/// Writing an extension list and parsing the text gives the list back, when every entry is
/// non-empty, has no surrounding whitespace and no line feed.
pub proof fn law_extension_list_write_parse(es: Seq<Seq<char>>)
    requires
        forall|i: int| 0 <= i < es.len() ==> trim(#[trigger] es[i]) == es[i] && es[i].len() > 0
            && !es[i].contains('\n'),
    ensures
        spec_parse_extension_list(join_lines(es)) == es,
{
    if es.len() == 0 {
        let e = Seq::<char>::empty();
        assert(join_lines(es) == e);
        assert(split_lines(e) == seq![e]);
        assert(leading_ws(e) == 0);
        assert(trim(e).len() == 0);
        let segs = seq![e];
        assert(segs.drop_last() =~= Seq::<Seq<char>>::empty());
        assert(segs.last() == e);
        assert(nonempty_trimmed(segs.drop_last()) == Seq::<Seq<char>>::empty());
        assert(nonempty_trimmed(segs) =~= Seq::<Seq<char>>::empty());
    } else {
        lemma_split_join(es);
        lemma_nonempty_trimmed_keeps(es);
    }
}

} // verus!
