//! The cache file format: a structured, human-inspectable serialization of a
//! day's record, and its parser.
//!
//! The format is a single record literal with named fields,
//! `(input:"...",description_1:"...",description_2:None)` or
//! `...description_2:Some("..."))`, where string contents escape `"` and `\`
//! with a backslash and carry every other character verbatim. The parser
//! accepts exactly the encodings this module produces; parsing an encoding
//! gives back the encoded record.

use vstd::prelude::*;
use vstd::string::{StringExecFns, StrSliceExecFns};
use crate::record::{Day, DayView};
use crate::strutil::push_char;

verus! {

/// How one character appears inside a quoted string: `"` and `\` are
/// preceded by a backslash, every other character stands for itself.
pub open spec fn escape_char(c: char) -> Seq<char> {
    if c == '"' || c == '\\' {
        seq!['\\', c]
    } else {
        seq![c]
    }
}

/// The escaped form of a string's contents.
pub open spec fn escape(s: Seq<char>) -> Seq<char>
    decreases s.len(),
{
    if s.len() == 0 {
        Seq::empty()
    } else {
        escape_char(s[0]) + escape(s.skip(1))
    }
}

/// The closing quote that ends a string's escaped contents.
pub open spec fn quote() -> Seq<char> {
    seq!['"']
}

/// The canonical serialization of a record.
pub open spec fn spec_encode(r: DayView) -> Seq<char> {
    "(input:\""@ + escape(r.input) + quote() + ",description_1:\""@ + escape(r.description_1)
        + quote() + ",description_2:"@ + (match r.description_2 {
        Some(d) => "Some(\""@ + escape(d) + quote() + "))"@,
        None => "None)"@,
    })
}

proof fn lemma_escape_snoc(s: Seq<char>, c: char)
    ensures
        escape(s.push(c)) == escape(s) + escape_char(c),
    decreases s.len(),
{
    if s.len() == 0 {
        assert(s.push(c).skip(1) =~= Seq::<char>::empty());
        assert(s.push(c)[0] == c);
        assert(escape(Seq::<char>::empty()) == Seq::<char>::empty());
        assert(escape(s.push(c)) == escape_char(c) + Seq::<char>::empty());
        assert(escape(s.push(c)) =~= escape(s) + escape_char(c));
    } else {
        assert(s.push(c).skip(1) =~= s.skip(1).push(c));
        assert(s.push(c)[0] == s[0]);
        lemma_escape_snoc(s.skip(1), c);
        assert(escape(s.push(c)) == escape_char(s[0]) + (escape(s.skip(1)) + escape_char(c)));
        assert(escape(s.push(c)) =~= escape(s) + escape_char(c));
    }
}

/// Appends the escaped contents of `s` to `out`.
fn append_escaped(out: &mut String, s: &str)
    ensures
        final(out)@ == old(out)@ + escape(s@),
{
    let n = s.unicode_len();
    let mut i: usize = 0;
    while i < n
        invariant
            n == s@.len(),
            0 <= i <= n,
            out@ == old(out)@ + escape(s@.take(i as int)),
        decreases n - i,
    {
        let c = s.get_char(i);
        if c == '"' || c == '\\' {
            push_char(out, '\\');
        }
        push_char(out, c);
        proof {
            lemma_escape_snoc(s@.take(i as int), s@[i as int]);
            assert(s@.take(i as int + 1) =~= s@.take(i as int).push(s@[i as int]));
            assert(out@ =~= old(out)@ + escape(s@.take(i as int + 1)));
        }
        i = i + 1;
    }
    assert(s@.take(n as int) =~= s@);
}

/// Serializes a record into the cache file format.
pub fn encode(r: &Day) -> (out: String)
    ensures
        out@ == spec_encode(r@),
{
    let mut s = String::from_str("(input:\"");
    append_escaped(&mut s, r.input.as_str());
    push_char(&mut s, '"');
    s.append(",description_1:\"");
    append_escaped(&mut s, r.description_1.as_str());
    push_char(&mut s, '"');
    s.append(",description_2:");
    match &r.description_2 {
        Some(d) => {
            s.append("Some(\"");
            append_escaped(&mut s, d.as_str());
            push_char(&mut s, '"');
            s.append("))");
        },
        None => {
            s.append("None)");
        },
    }
    assert(s@ =~= spec_encode(r@));
    s
}

/// Whether `lit` occurs in `s` starting at position `i`.
pub open spec fn matches_at(s: Seq<char>, i: int, lit: Seq<char>) -> bool {
    0 <= i && i + lit.len() <= s.len() && s.subrange(i, i + lit.len()) == lit
}

/// Scans the contents of a quoted string in `s` from position `i` up to its
/// closing quote: the unescaped contents and the position just after the
/// quote, or `None` if the string is unterminated or holds a stray
/// backslash.
pub open spec fn spec_scan(s: Seq<char>, i: int) -> Option<(Seq<char>, int)>
    decreases s.len() - i,
    when 0 <= i <= s.len()
{
    if i >= s.len() {
        None
    } else if s[i] == '"' {
        Some((Seq::empty(), i + 1))
    } else if s[i] == '\\' {
        if i + 1 < s.len() && (s[i + 1] == '"' || s[i + 1] == '\\') {
            match spec_scan(s, i + 2) {
                Some(p) => Some((seq![s[i + 1]] + p.0, p.1)),
                None => None,
            }
        } else {
            None
        }
    } else {
        match spec_scan(s, i + 1) {
            Some(p) => Some((seq![s[i]] + p.0, p.1)),
            None => None,
        }
    }
}

/// What the parser makes of `s`: the record whose encoding `s` is, if it is
/// one.
pub open spec fn spec_parse(s: Seq<char>) -> Option<DayView> {
    let h1 = "(input:\""@;
    let h2 = ",description_1:\""@;
    let h3 = ",description_2:"@;
    if !matches_at(s, 0, h1) {
        None
    } else {
        match spec_scan(s, h1.len() as int) {
            None => None,
            Some(p1) => if !matches_at(s, p1.1, h2) {
                None
            } else {
                match spec_scan(s, p1.1 + h2.len()) {
                    None => None,
                    Some(p2) => if !matches_at(s, p2.1, h3) {
                        None
                    } else {
                        let i3 = p2.1 + h3.len();
                        if matches_at(s, i3, "None)"@) && i3 + "None)"@.len() == s.len() {
                            Some(DayView { input: p1.0, description_1: p2.0, description_2: None })
                        } else if matches_at(s, i3, "Some(\""@) {
                            match spec_scan(s, i3 + "Some(\""@.len()) {
                                None => None,
                                Some(p3) => if matches_at(s, p3.1, "))"@) && p3.1 + "))"@.len()
                                    == s.len() {
                                    Some(
                                        DayView {
                                            input: p1.0,
                                            description_1: p2.0,
                                            description_2: Some(p3.0),
                                        },
                                    )
                                } else {
                                    None
                                },
                            }
                        } else {
                            None
                        }
                    },
                }
            },
        }
    }
}

proof fn lemma_scan_bounds(s: Seq<char>, i: int)
    requires
        0 <= i <= s.len(),
    ensures
        match spec_scan(s, i) {
            Some(p) => i < p.1 <= s.len(),
            None => true,
        },
    decreases s.len() - i,
{
    if i < s.len() {
        if s[i] == '\\' {
            if i + 1 < s.len() && (s[i + 1] == '"' || s[i + 1] == '\\') {
                lemma_scan_bounds(s, i + 2);
            }
        } else if s[i] != '"' {
            lemma_scan_bounds(s, i + 1);
        }
    }
}

/// Whether `lit` occurs in `s` starting at position `i`.
fn matches_lit_at(s: &str, i: usize, lit: &str) -> (r: bool)
    requires
        i <= s@.len(),
    ensures
        r == matches_at(s@, i as int, lit@),
{
    let n = s.unicode_len();
    let m = lit.unicode_len();
    if m > n - i {
        return false;
    }
    let mut j: usize = 0;
    while j < m
        invariant
            n == s@.len(),
            m == lit@.len(),
            i + m <= n,
            0 <= j <= m,
            forall|k: int| 0 <= k < j ==> s@[i + k] == lit@[k],
        decreases m - j,
    {
        if s.get_char(i + j) != lit.get_char(j) {
            assert(s@.subrange(i as int, i + m) != lit@) by {
                assert(s@.subrange(i as int, i + m)[j as int] != lit@[j as int]);
            }
            return false;
        }
        j = j + 1;
    }
    assert(s@.subrange(i as int, i + m) =~= lit@);
    true
}

/// Scans the contents of a quoted string in `s` from position `i` up to its
/// closing quote.
fn scan_string(s: &str, i: usize) -> (r: Option<(String, usize)>)
    requires
        i <= s@.len(),
    ensures
        match r {
            Some(p) => spec_scan(s@, i as int) == Some((p.0@, p.1 as int)) && i < p.1 <= s@.len(),
            None => spec_scan(s@, i as int) is None,
        },
{
    let n = s.unicode_len();
    let mut acc = String::new();
    let mut pos: usize = i;
    loop
        invariant
            n == s@.len(),
            i <= pos <= n,
            spec_scan(s@, i as int) == match spec_scan(s@, pos as int) {
                Some(p) => Some((acc@ + p.0, p.1)),
                None => None::<(Seq<char>, int)>,
            },
        decreases n - pos,
    {
        if pos >= n {
            return None;
        }
        let c = s.get_char(pos);
        if c == '"' {
            proof {
                assert(spec_scan(s@, pos as int) == Some((Seq::<char>::empty(), pos + 1 as int)));
                assert(acc@ + Seq::<char>::empty() =~= acc@);
                lemma_scan_bounds(s@, i as int);
            }
            return Some((acc, pos + 1));
        } else if c == '\\' {
            if pos + 1 < n {
                let e = s.get_char(pos + 1);
                if e == '"' || e == '\\' {
                    push_char(&mut acc, e);
                    proof {
                        assert forall|p: (Seq<char>, int)|
                            spec_scan(s@, pos + 2) == Some::<(Seq<char>, int)>(p) implies acc@ + p.0
                            =~= (acc@.drop_last() + (seq![s@[pos + 1]] + p.0)) by {}
                    }
                    pos = pos + 2;
                    continue;
                }
            }
            return None;
        } else {
            push_char(&mut acc, c);
            proof {
                assert forall|p: (Seq<char>, int)|
                    spec_scan(s@, pos + 1) == Some::<(Seq<char>, int)>(p) implies acc@ + p.0 =~= (
                acc@.drop_last() + (seq![s@[pos as int]] + p.0)) by {}
            }
            pos = pos + 1;
        }
    }
}

/// Parses the cache file format: the record whose encoding `s` is, or
/// `None` if `s` is not an encoding of any record.
pub fn parse(s: &str) -> (r: Option<Day>)
    ensures
        match r {
            Some(d) => spec_parse(s@) == Some(d@),
            None => spec_parse(s@) is None,
        },
{
    let n = s.unicode_len();
    if !matches_lit_at(s, 0, "(input:\"") {
        return None;
    }
    let h1_len = "(input:\"".unicode_len();
    let (input, i1) = match scan_string(s, h1_len) {
        None => {
            return None;
        },
        Some(p) => p,
    };
    if !matches_lit_at(s, i1, ",description_1:\"") {
        return None;
    }
    let i2 = i1 + ",description_1:\"".unicode_len();
    let (d1, j2) = match scan_string(s, i2) {
        None => {
            return None;
        },
        Some(p) => p,
    };
    if !matches_lit_at(s, j2, ",description_2:") {
        return None;
    }
    let i3 = j2 + ",description_2:".unicode_len();
    if matches_lit_at(s, i3, "None)") && i3 + "None)".unicode_len() == n {
        return Some(Day { input, description_1: d1, description_2: None });
    }
    if matches_lit_at(s, i3, "Some(\"") {
        let i4 = i3 + "Some(\"".unicode_len();
        let (d2, j4) = match scan_string(s, i4) {
            None => {
                return None;
            },
            Some(p) => p,
        };
        if matches_lit_at(s, j4, "))") && j4 + "))".unicode_len() == n {
            return Some(Day { input, description_1: d1, description_2: Some(d2) });
        }
        return None;
    }
    None
}

proof fn lemma_scan_sound(s: Seq<char>, i: int)
    requires
        0 <= i <= s.len(),
    ensures
        match spec_scan(s, i) {
            Some(p) => i < p.1 <= s.len() && s.subrange(i, p.1) == escape(p.0) + quote(),
            None => true,
        },
    decreases s.len() - i,
{
    if i < s.len() {
        if s[i] == '"' {
            assert(s.subrange(i, i + 1) =~= escape(Seq::<char>::empty()) + quote());
        } else if s[i] == '\\' {
            if i + 1 < s.len() && (s[i + 1] == '"' || s[i + 1] == '\\') {
                lemma_scan_sound(s, i + 2);
                match spec_scan(s, i + 2) {
                    Some(p) => {
                        let content = seq![s[i + 1]] + p.0;
                        assert(content[0] == s[i + 1]);
                        assert(content.skip(1) =~= p.0);
                        assert(escape(content) == escape_char(s[i + 1]) + escape(p.0));
                        assert(s.subrange(i, p.1) =~= seq![s[i], s[i + 1]] + s.subrange(
                            i + 2,
                            p.1,
                        ));
                        assert(escape(content) + quote() =~= seq!['\\', s[i + 1]] + (escape(p.0)
                            + quote()));
                        assert(s.subrange(i, p.1) =~= escape(content) + quote());
                    },
                    None => {},
                }
            }
        } else {
            lemma_scan_sound(s, i + 1);
            match spec_scan(s, i + 1) {
                Some(p) => {
                    let content = seq![s[i]] + p.0;
                    assert(content[0] == s[i]);
                    assert(content.skip(1) =~= p.0);
                    assert(escape(content) == escape_char(s[i]) + escape(p.0));
                    assert(s.subrange(i, p.1) =~= seq![s[i]] + s.subrange(i + 1, p.1));
                    assert(escape(content) + quote() =~= seq![s[i]] + (escape(p.0) + quote()));
                    assert(s.subrange(i, p.1) =~= escape(content) + quote());
                },
                None => {},
            }
        }
    }
}

/// The parser accepts only canonical text: whatever it makes a record of
/// is exactly that record's serialization.
pub proof fn lemma_parse_sound(s: Seq<char>)
    ensures
        match spec_parse(s) {
            Some(r) => s == spec_encode(r),
            None => true,
        },
{
    let h1 = "(input:\""@;
    let h2 = ",description_1:\""@;
    let h3 = ",description_2:"@;
    if matches_at(s, 0, h1) {
        let i1 = h1.len() as int;
        lemma_scan_sound(s, i1);
        match spec_scan(s, i1) {
            None => {},
            Some(p1) => {
                if matches_at(s, p1.1, h2) {
                    let i2 = p1.1 + h2.len();
                    lemma_scan_sound(s, i2);
                    match spec_scan(s, i2) {
                        None => {},
                        Some(p2) => {
                            if matches_at(s, p2.1, h3) {
                                let i3 = p2.1 + h3.len();
                                if matches_at(s, i3, "None)"@) && i3 + "None)"@.len() == s.len() {
                                    let r = DayView {
                                        input: p1.0,
                                        description_1: p2.0,
                                        description_2: None,
                                    };
                                    assert(s =~= s.subrange(0, i1) + s.subrange(i1, p1.1)
                                        + s.subrange(p1.1, i2) + s.subrange(i2, p2.1)
                                        + s.subrange(p2.1, i3) + s.subrange(i3, s.len() as int));
                                    assert(s =~= spec_encode(r));
                                } else if matches_at(s, i3, "Some(\""@) {
                                    let i4 = i3 + "Some(\""@.len();
                                    lemma_scan_sound(s, i4);
                                    match spec_scan(s, i4) {
                                        None => {},
                                        Some(p3) => {
                                            if matches_at(s, p3.1, "))"@) && p3.1 + "))"@.len()
                                                == s.len() {
                                                let r = DayView {
                                                    input: p1.0,
                                                    description_1: p2.0,
                                                    description_2: Some(p3.0),
                                                };
                                                assert(s =~= s.subrange(0, i1) + s.subrange(
                                                    i1,
                                                    p1.1,
                                                ) + s.subrange(p1.1, i2) + s.subrange(i2, p2.1)
                                                    + s.subrange(p2.1, i3) + s.subrange(i3, i4)
                                                    + s.subrange(i4, p3.1) + s.subrange(
                                                    p3.1,
                                                    s.len() as int,
                                                ));
                                                assert(s =~= spec_encode(r));
                                            }
                                        },
                                    }
                                }
                            }
                        },
                    }
                }
            },
        }
    }
}

/// When the parser rejects a text, that text is not the serialization of
/// any record: nothing readable is ever turned away.
pub proof fn lemma_parse_complete(s: Seq<char>)
    ensures
        spec_parse(s) is None ==> forall|r: DayView| spec_encode(r) != s,
{
    if spec_parse(s) is None {
        assert forall|r: DayView| spec_encode(r) != s by {
            if spec_encode(r) == s {
                lemma_parse_encode(r);
            }
        }
    }
}

/// No two distinct records share a serialization.
pub proof fn lemma_encode_injective(a: DayView, b: DayView)
    requires
        spec_encode(a) == spec_encode(b),
    ensures
        a == b,
{
    lemma_parse_encode(a);
    lemma_parse_encode(b);
}

proof fn lemma_scan_escape(pre: Seq<char>, content: Seq<char>, rest: Seq<char>)
    ensures
        spec_scan(pre + escape(content) + quote() + rest, pre.len() as int) == Some(
            (content, (pre.len() + escape(content).len() + 1) as int),
        ),
    decreases content.len(),
{
    let s = pre + escape(content) + quote() + rest;
    let i = pre.len() as int;
    if content.len() == 0 {
        assert(escape(content) == Seq::<char>::empty());
        assert(s[i] == '"');
        assert(spec_scan(s, i) == Some((Seq::<char>::empty(), i + 1)));
    } else {
        let c = content[0];
        let tail = content.skip(1);
        assert(escape(content) == escape_char(c) + escape(tail));
        if c == '"' || c == '\\' {
            let pre2 = pre + seq!['\\', c];
            lemma_scan_escape(pre2, tail, rest);
            assert(pre2 + escape(tail) + quote() + rest =~= s);
            assert(s[i] == '\\');
            assert(s[i + 1] == c);
            assert(spec_scan(s, i + 2) == Some((tail, i + 2 + escape(tail).len() + 1)));
            assert(seq![s[i + 1]] + tail =~= content);
            assert(spec_scan(s, i) == Some((content, (pre.len() + escape(content).len() + 1) as int)));
        } else {
            let pre2 = pre + seq![c];
            lemma_scan_escape(pre2, tail, rest);
            assert(pre2 + escape(tail) + quote() + rest =~= s);
            assert(s[i] == c);
            assert(spec_scan(s, i + 1) == Some((tail, i + 1 + escape(tail).len() + 1)));
            assert(seq![s[i]] + tail =~= content);
            assert(spec_scan(s, i) == Some((content, (pre.len() + escape(content).len() + 1) as int)));
        }
    }
}

/// Round trip: the serialization of any record parses back to that record.
/// Reading a cache file just after writing it therefore yields an equal
/// record.
pub proof fn lemma_parse_encode(r: DayView)
    ensures
        spec_parse(spec_encode(r)) == Some(r),
{
    let s = spec_encode(r);
    let h1 = "(input:\""@;
    let h2 = ",description_1:\""@;
    let h3 = ",description_2:"@;
    let t = match r.description_2 {
        Some(d) => "Some(\""@ + escape(d) + quote() + "))"@,
        None => "None)"@,
    };
    let rest1 = h2 + escape(r.description_1) + quote() + h3 + t;
    assert(s =~= h1 + escape(r.input) + quote() + rest1);
    assert(s.subrange(0, h1.len() as int) =~= h1);
    lemma_scan_escape(h1, r.input, rest1);
    let i1 = h1.len() + escape(r.input).len() + 1;
    let pre2 = h1 + escape(r.input) + quote();
    assert(pre2.len() == i1);
    let rest2 = h3 + t;
    assert(s =~= pre2 + h2 + escape(r.description_1) + quote() + rest2);
    assert(s.subrange(i1 as int, (i1 + h2.len()) as int) =~= h2);
    lemma_scan_escape(pre2 + h2, r.description_1, rest2);
    let i2 = i1 + h2.len() + escape(r.description_1).len() + 1;
    let pre3 = pre2 + h2 + escape(r.description_1) + quote();
    assert(pre3.len() == i2);
    assert(s =~= pre3 + h3 + t);
    assert(s.subrange(i2 as int, (i2 + h3.len()) as int) =~= h3);
    let i3 = i2 + h3.len();
    let pre4 = pre3 + h3;
    assert(pre4.len() == i3);
    reveal_strlit("None)");
    reveal_strlit("Some(\"");
    reveal_strlit("))");
    match r.description_2 {
        None => {
            assert(s =~= pre4 + "None)"@);
            assert(s.subrange(i3 as int, (i3 + "None)"@.len()) as int) =~= "None)"@);
            assert(i3 + "None)"@.len() == s.len());
            assert(spec_parse(s) == Some(
                DayView { input: r.input, description_1: r.description_1, description_2: None },
            ));
            assert(DayView {
                input: r.input,
                description_1: r.description_1,
                description_2: None,
            } =~~= r);
        },
        Some(d) => {
            let h4 = "Some(\""@;
            assert(s =~= pre4 + h4 + escape(d) + quote() + "))"@);
            assert(s[i3 as int] == 'S');
            assert(!matches_at(s, i3 as int, "None)"@)) by {
                if matches_at(s, i3 as int, "None)"@) {
                    assert(s.subrange(i3 as int, (i3 + "None)"@.len()) as int)[0] == 'N');
                }
            }
            assert(s.subrange(i3 as int, (i3 + h4.len()) as int) =~= h4);
            lemma_scan_escape(pre4 + h4, d, "))"@);
            let i4 = i3 + h4.len() + escape(d).len() + 1;
            let pre5 = pre4 + h4 + escape(d) + quote();
            assert(pre5.len() == i4);
            assert(s =~= pre5 + "))"@);
            assert(s.subrange(i4 as int, (i4 + "))"@.len()) as int) =~= "))"@);
            assert(i4 + "))"@.len() == s.len());
            assert(spec_parse(s) == Some(
                DayView { input: r.input, description_1: r.description_1, description_2: Some(d) },
            ));
            assert(DayView {
                input: r.input,
                description_1: r.description_1,
                description_2: Some(d),
            } =~~= r);
        },
    }
}

} // verus!
