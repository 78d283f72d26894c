use crate::testcase::{Testcase, TestcaseFile};
use vstd::prelude::*;

verus! {

// ---------------------------------------------------------------------------
// Character-level helpers shared by the codec and the template expander.
// ---------------------------------------------------------------------------

/// Relies on char::to_string: the one-character string holding exactly `c`.
#[verifier::external_body]
fn char_to_string(c: char) -> (r: String)
    ensures
        r@ == seq![c],
{
    c.to_string()
}

/// The characters of a string, in order, as a vector.
pub fn str_to_chars(s: &str) -> (r: Vec<char>)
    ensures
        r@ == s@,
{
    let n = s.unicode_len();
    let mut r: Vec<char> = Vec::new();
    let mut i: usize = 0;
    while i < n
        invariant
            n == s@.len(),
            i <= n,
            r@ == s@.subrange(0, i as int),
        decreases n - i,
    {
        r.push(s.get_char(i));
        proof {
            assert(s@.subrange(0, i as int).push(s@[i as int]) =~= s@.subrange(0, i + 1));
        }
        i = i + 1;
    }
    proof {
        assert(s@.subrange(0, s@.len() as int) =~= s@);
    }
    r
}

/// The string holding the given characters, in order.
pub fn chars_to_string(v: &Vec<char>) -> (r: String)
    ensures
        r@ == v@,
{
    let mut r = String::new();
    let mut i: usize = 0;
    while i < v.len()
        invariant
            i <= v@.len(),
            r@ == v@.subrange(0, i as int),
        decreases v@.len() - i,
    {
        let piece = char_to_string(v[i]);
        r.append(piece.as_str());
        proof {
            assert(v@.subrange(0, i as int) + seq![v@[i as int]] =~= v@.subrange(0, i + 1));
        }
        i = i + 1;
    }
    proof {
        assert(v@.subrange(0, v@.len() as int) =~= v@);
    }
    r
}

// ---------------------------------------------------------------------------
// The persisted testcase document. One file holds the ordered record list
//
//     [[testcases]]
//     input = "..."
//     output = "..."
//
// with each text in a quoted basic string whose escapes are written below.
// The format is stable and human-editable; the loader rejects any document
// it would not itself have written, so a malformed cache file is surfaced as
// a hard failure instead of being partially recovered.
// ---------------------------------------------------------------------------

/// Escaping of one character inside a quoted string.
pub open spec fn esc_char(c: char) -> Seq<char> {
    if c == '\\' {
        seq!['\\', '\\']
    } else if c == '"' {
        seq!['\\', '"']
    } else if c == '\n' {
        seq!['\\', 'n']
    } else if c == '\t' {
        seq!['\\', 't']
    } else if c == '\r' {
        seq!['\\', 'r']
    } else {
        seq![c]
    }
}

/// The character named by an escape code, if the code is recognized.
pub open spec fn unesc_char(c: char) -> Option<char> {
    if c == '\\' {
        Some('\\')
    } else if c == '"' {
        Some('"')
    } else if c == 'n' {
        Some('\n')
    } else if c == 't' {
        Some('\t')
    } else if c == 'r' {
        Some('\r')
    } else {
        None
    }
}

/// Escaping of a whole text for a quoted string.
pub open spec fn spec_escape(s: Seq<char>) -> Seq<char>
    decreases s.len(),
{
    if s.len() == 0 {
        Seq::empty()
    } else {
        esc_char(s[0]) + spec_escape(s.skip(1))
    }
}

/// Scans a quoted string's body starting at `i` (just past the opening
/// quote): returns the unescaped content together with the position just past
/// the closing quote. Rejects unknown escapes and raw characters that the
/// writer would have escaped, so accepted bodies are exactly the writer's.
pub open spec fn spec_scan(s: Seq<char>, i: int) -> Option<(Seq<char>, int)>
    decreases s.len() - i,
{
    if i < 0 || i >= s.len() {
        None
    } else if s[i] == '"' {
        Some((Seq::empty(), i + 1))
    } else if s[i] == '\\' {
        if i + 1 >= s.len() {
            None
        } else {
            match unesc_char(s[i + 1]) {
                None => None,
                Some(c) => match spec_scan(s, i + 2) {
                    None => None,
                    Some((content, j)) => Some((seq![c] + content, j)),
                },
            }
        }
    } else if s[i] == '\n' || s[i] == '\t' || s[i] == '\r' {
        None
    } else {
        match spec_scan(s, i + 1) {
            None => None,
            Some((content, j)) => Some((seq![s[i]] + content, j)),
        }
    }
}

/// `lit` stands at position `i` of `s`.
pub open spec fn has_lit(s: Seq<char>, i: int, lit: Seq<char>) -> bool {
    0 <= i && i + lit.len() <= s.len() && s.subrange(i, i + lit.len()) == lit
}

/// Record header, up to and including the opening quote of the input text.
pub open spec fn lit_head() -> Seq<char> {
    "[[testcases]]\ninput = \""@
}

/// Between the input text's closing quote and the output text's opening one.
pub open spec fn lit_mid() -> Seq<char> {
    "\noutput = \""@
}

/// After the output text's closing quote: the record's trailing blank line.
pub open spec fn lit_tail() -> Seq<char> {
    "\n\n"@
}

/// One persisted record.
pub open spec fn spec_record(input: Seq<char>, output: Seq<char>) -> Seq<char> {
    lit_head() + spec_escape(input) + seq!['"'] + lit_mid() + spec_escape(output) + seq!['"']
        + lit_tail()
}

/// The persisted document of an ordered collection: its records, in order.
pub open spec fn spec_encode(tcs: Seq<(Seq<char>, Seq<char>)>) -> Seq<char>
    decreases tcs.len(),
{
    if tcs.len() == 0 {
        Seq::empty()
    } else {
        spec_record(tcs[0].0, tcs[0].1) + spec_encode(tcs.skip(1))
    }
}

/// The collection a document holds, parsed from position `i`: `None` exactly
/// when the rest of the document is not a well-formed record list.
pub open spec fn spec_parse_rec(s: Seq<char>, i: int) -> Option<Seq<(Seq<char>, Seq<char>)>>
    decreases s.len() - i,
{
    if i < 0 || i > s.len() {
        None
    } else if i == s.len() {
        Some(Seq::empty())
    } else if !has_lit(s, i, lit_head()) {
        None
    } else {
        match spec_scan(s, i + lit_head().len()) {
            None => None,
            Some((input, j1)) => {
                if !has_lit(s, j1, lit_mid()) {
                    None
                } else {
                    match spec_scan(s, j1 + lit_mid().len()) {
                        None => None,
                        Some((output, j2)) => {
                            if !has_lit(s, j2, lit_tail()) {
                                None
                            } else if j2 + lit_tail().len() <= i {
                                None
                            } else {
                                match spec_parse_rec(s, j2 + lit_tail().len()) {
                                    None => None,
                                    Some(rest) => Some(seq![(input, output)] + rest),
                                }
                            }
                        },
                    }
                }
            },
        }
    }
}

/// The collection a whole document holds, or `None` for a malformed one.
pub open spec fn spec_parse(s: Seq<char>) -> Option<Seq<(Seq<char>, Seq<char>)>> {
    spec_parse_rec(s, 0)
}

// ---------------------------------------------------------------------------
// Executable codec.
// ---------------------------------------------------------------------------

fn escape_chars(v: &Vec<char>) -> (r: Vec<char>)
    ensures
        r@ == spec_escape(v@),
{
    let mut r: Vec<char> = Vec::new();
    let mut i: usize = 0;
    proof {
        assert(v@.skip(0) =~= v@);
        assert(Seq::<char>::empty() + spec_escape(v@) =~= spec_escape(v@));
    }
    while i < v.len()
        invariant
            i <= v@.len(),
            spec_escape(v@) == r@ + spec_escape(v@.skip(i as int)),
        decreases v@.len() - i,
    {
        let ghost r0 = r@;
        let ghost rest = v@.skip(i as int);
        proof {
            assert(rest[0] == v@[i as int]);
            assert(rest.skip(1) =~= v@.skip(i + 1));
        }
        let c = v[i];
        if c == '\\' {
            r.push('\\');
            r.push('\\');
        } else if c == '"' {
            r.push('\\');
            r.push('"');
        } else if c == '\n' {
            r.push('\\');
            r.push('n');
        } else if c == '\t' {
            r.push('\\');
            r.push('t');
        } else if c == '\r' {
            r.push('\\');
            r.push('r');
        } else {
            r.push(c);
        }
        proof {
            assert(r@ =~= r0 + esc_char(v@[i as int]));
            assert((r0 + esc_char(v@[i as int])) + spec_escape(v@.skip(i + 1)) =~= r0 + (esc_char(
                v@[i as int],
            ) + spec_escape(v@.skip(i + 1))));
        }
        i = i + 1;
    }
    proof {
        assert(v@.skip(v@.len() as int) =~= Seq::<char>::empty());
        assert(r@ + Seq::<char>::empty() =~= r@);
    }
    r
}

/// The escaped form of a text, as written inside a quoted string.
pub fn escape_string(s: &str) -> (r: String)
    ensures
        r@ == spec_escape(s@),
{
    let v = str_to_chars(s);
    let escaped = escape_chars(&v);
    chars_to_string(&escaped)
}

/// Serializes the whole ordered collection as the persisted document.
pub fn encode_testcases(file: &TestcaseFile) -> (r: String)
    ensures
        r@ == spec_encode(file.rep()),
{
    let ghost rep = file.rep();
    let mut out = String::new();
    let mut i: usize = 0;
    proof {
        assert(rep.skip(0) =~= rep);
        assert(Seq::<char>::empty() + spec_encode(rep) =~= spec_encode(rep));
    }
    while i < file.len()
        invariant
            i <= rep.len(),
            rep == file.rep(),
            spec_encode(rep) == out@ + spec_encode(rep.skip(i as int)),
        decreases rep.len() - i,
    {
        let ghost out0 = out@;
        let ghost rest = rep.skip(i as int);
        proof {
            assert(rest[0] == rep[i as int]);
            assert(rest.skip(1) =~= rep.skip(i + 1));
        }
        let tc = file.testcase(i);
        let esc_in = escape_string(tc.input().as_str());
        let esc_out = escape_string(tc.output().as_str());
        out.append("[[testcases]]\ninput = \"");
        out.append(esc_in.as_str());
        out.append("\"");
        out.append("\noutput = \"");
        out.append(esc_out.as_str());
        out.append("\"");
        out.append("\n\n");
        proof {
            reveal_strlit("\"");
            assert("\""@ =~= seq!['"']);
            assert(out@ =~= out0 + spec_record(rep[i as int].0, rep[i as int].1));
            assert((out0 + spec_record(rep[i as int].0, rep[i as int].1)) + spec_encode(
                rep.skip(i + 1),
            ) =~= out0 + (spec_record(rep[i as int].0, rep[i as int].1) + spec_encode(
                rep.skip(i + 1),
            )));
        }
        i = i + 1;
    }
    proof {
        assert(rep.skip(rep.len() as int) =~= Seq::<(Seq<char>, Seq<char>)>::empty());
        assert(out@ + Seq::<char>::empty() =~= out@);
    }
    out
}

fn has_lit_exec(v: &Vec<char>, i: usize, lit: &str) -> (b: bool)
    ensures
        b == has_lit(v@, i as int, lit@),
{
    let n = lit.unicode_len();
    if i > v.len() || n > v.len() - i {
        return false;
    }
    let mut k: usize = 0;
    while k < n
        invariant
            k <= n,
            n == lit@.len(),
            i + n <= v@.len(),
            v@.len() <= usize::MAX,
            forall|m: int| 0 <= m < k ==> v@[i + m] == lit@[m],
        decreases n - k,
    {
        if v[i + k] != lit.get_char(k) {
            proof {
                if has_lit(v@, i as int, lit@) {
                    assert(v@.subrange(i as int, i + lit@.len())[k as int] == lit@[k as int]);
                }
            }
            return false;
        }
        k = k + 1;
    }
    proof {
        assert(v@.subrange(i as int, i + lit@.len()) =~= lit@);
    }
    true
}

fn scan_exec(v: &Vec<char>, start: usize) -> (r: Option<(Vec<char>, usize)>)
    requires
        start <= v@.len(),
    ensures
        match r {
            Some(p) => spec_scan(v@, start as int) == Some((p.0@, p.1 as int)),
            None => spec_scan(v@, start as int) is None,
        },
{
    let mut content: Vec<char> = Vec::new();
    let mut i: usize = start;
    loop
        invariant
            start <= i <= v@.len(),
            match spec_scan(v@, i as int) {
                Some(p) => spec_scan(v@, start as int) == Some((content@ + p.0, p.1)),
                None => spec_scan(v@, start as int) is None,
            },
        decreases v@.len() - i,
    {
        if i >= v.len() {
            return None;
        }
        let ghost content0 = content@;
        let c = v[i];
        if c == '"' {
            proof {
                assert(content0 + Seq::<char>::empty() =~= content0);
            }
            return Some((content, i + 1));
        }
        if c == '\\' {
            if i + 1 >= v.len() {
                return None;
            }
            let e = v[i + 1];
            let decoded: Option<char> = if e == '\\' {
                Some('\\')
            } else if e == '"' {
                Some('"')
            } else if e == 'n' {
                Some('\n')
            } else if e == 't' {
                Some('\t')
            } else if e == 'r' {
                Some('\r')
            } else {
                None
            };
            match decoded {
                None => {
                    return None;
                },
                Some(d) => {
                    content.push(d);
                    proof {
                        match spec_scan(v@, i + 2) {
                            Some(p) => {
                                assert(content0 + (seq![d] + p.0) =~= content0.push(d) + p.0);
                            },
                            None => {},
                        }
                    }
                    i = i + 2;
                },
            }
        } else if c == '\n' || c == '\t' || c == '\r' {
            return None;
        } else {
            content.push(c);
            proof {
                match spec_scan(v@, i + 1) {
                    Some(p) => {
                        assert(content0 + (seq![c] + p.0) =~= content0.push(c) + p.0);
                    },
                    None => {},
                }
            }
            i = i + 1;
        }
    }
}

/// Positions returned by the scanner lie past the scanned region's start and
/// inside the document.
proof fn lemma_scan_bounds(s: Seq<char>, i: int)
    requires
        spec_scan(s, i) is Some,
    ensures
        i < spec_scan(s, i)->Some_0.1 <= s.len(),
    decreases s.len() - i,
{
    if s[i] == '"' {
    } else if s[i] == '\\' {
        lemma_scan_bounds(s, i + 2);
    } else {
        lemma_scan_bounds(s, i + 1);
    }
}

/// A literal splits off the front of a longer one standing at `i`.
proof fn lemma_split_lit(s: Seq<char>, i: int, a: Seq<char>, b: Seq<char>)
    requires
        has_lit(s, i, a + b),
    ensures
        has_lit(s, i, a),
        has_lit(s, i + a.len(), b),
{
    let ab = a + b;
    assert(s.subrange(i, i + a.len()) =~= a) by {
        assert forall|k: int| 0 <= k < a.len() implies s.subrange(i, i + a.len())[k] == a[k] by {
            assert(s.subrange(i, i + ab.len())[k] == ab[k]);
        }
    };
    assert(s.subrange(i + a.len(), i + a.len() + b.len()) =~= b) by {
        assert forall|k: int|
            0 <= k < b.len() implies s.subrange(i + a.len(), i + a.len() + b.len())[k] == b[k] by {
            assert(s.subrange(i, i + ab.len())[a.len() + k] == ab[a.len() + k]);
        }
    };
}

/// The scanner, run over the escaped form of a text followed by the closing
/// quote, recovers exactly that text and stops just past the quote.
proof fn lemma_scan_escape(s: Seq<char>, i: int, x: Seq<char>)
    requires
        has_lit(s, i, spec_escape(x) + seq!['"']),
    ensures
        spec_scan(s, i) == Some((x, i + spec_escape(x).len() + 1)),
    decreases x.len(),
{
    let exq = spec_escape(x) + seq!['"'];
    assert forall|k: int| 0 <= k < exq.len() implies s[i + k] == exq[k] by {
        assert(s.subrange(i, i + exq.len())[k] == exq[k]);
    }
    if x.len() == 0 {
        assert(spec_escape(x) =~= Seq::<char>::empty());
        assert(s.subrange(i, i + exq.len())[0] == exq[0]);
        assert(s[i] == '"');
        assert(x =~= Seq::<char>::empty());
    } else {
        let c = x[0];
        let x1 = x.skip(1);
        assert(spec_escape(x) == esc_char(c) + spec_escape(x1));
        assert(exq =~= esc_char(c) + (spec_escape(x1) + seq!['"']));
        lemma_split_lit(s, i, esc_char(c), spec_escape(x1) + seq!['"']);
        if c == '\\' || c == '"' || c == '\n' || c == '\t' || c == '\r' {
            let e = esc_char(c)[1];
            assert(s[i] == '\\');
            assert(s[i + 1] == e);
            assert(unesc_char(e) == Some(c));
            lemma_scan_escape(s, i + 2, x1);
            assert(seq![c] + x1 =~= x);
        } else {
            assert(s[i] == c);
            lemma_scan_escape(s, i + 1, x1);
            assert(seq![c] + x1 =~= x);
        }
    }
}

/// What the scanner accepted is exactly the escaped form of what it
/// returned, closing quote included.
proof fn lemma_scan_inverse(s: Seq<char>, i: int)
    requires
        spec_scan(s, i) is Some,
    ensures
        ({
            let p = spec_scan(s, i)->Some_0;
            &&& p.1 == i + spec_escape(p.0).len() + 1
            &&& has_lit(s, i, spec_escape(p.0) + seq!['"'])
        }),
    decreases s.len() - i,
{
    let p = spec_scan(s, i)->Some_0;
    let x = p.0;
    let j = p.1;
    if s[i] == '"' {
        assert(spec_escape(x) =~= Seq::<char>::empty());
        assert(s.subrange(i, i + 1) =~= seq!['"']);
        assert(spec_escape(x) + seq!['"'] =~= seq!['"']);
    } else if s[i] == '\\' {
        let e = s[i + 1];
        let c = unesc_char(e)->Some_0;
        lemma_scan_inverse(s, i + 2);
        let p1 = spec_scan(s, i + 2)->Some_0;
        let x1 = p1.0;
        assert(x == seq![c] + x1);
        assert(x.skip(1) =~= x1);
        assert(esc_char(c) =~= seq!['\\', e]);
        assert(spec_escape(x) == esc_char(c) + spec_escape(x1));
        let ex = spec_escape(x) + seq!['"'];
        let ex1 = spec_escape(x1) + seq!['"'];
        assert forall|k: int| 0 <= k < ex.len() implies s.subrange(i, j)[k] == ex[k] by {
            if k >= 2 {
                assert(s.subrange(i + 2, i + 2 + ex1.len())[k - 2] == ex1[k - 2]);
            }
        }
        assert(s.subrange(i, j) =~= ex);
    } else {
        let c = s[i];
        lemma_scan_inverse(s, i + 1);
        let p1 = spec_scan(s, i + 1)->Some_0;
        let x1 = p1.0;
        assert(x == seq![c] + x1);
        assert(x.skip(1) =~= x1);
        assert(esc_char(c) =~= seq![c]);
        assert(spec_escape(x) == esc_char(c) + spec_escape(x1));
        let ex = spec_escape(x) + seq!['"'];
        let ex1 = spec_escape(x1) + seq!['"'];
        assert forall|k: int| 0 <= k < ex.len() implies s.subrange(i, j)[k] == ex[k] by {
            if k >= 1 {
                assert(s.subrange(i + 1, i + 1 + ex1.len())[k - 1] == ex1[k - 1]);
            }
        }
        assert(s.subrange(i, j) =~= ex);
    }
}

/// The parser, run over the document of a collection, recovers exactly that
/// collection.
proof fn lemma_parse_of_encode(s: Seq<char>, i: int, tcs: Seq<(Seq<char>, Seq<char>)>)
    requires
        0 <= i <= s.len(),
        s.subrange(i, s.len() as int) == spec_encode(tcs),
    ensures
        spec_parse_rec(s, i) == Some(tcs),
    decreases tcs.len(),
{
    if tcs.len() == 0 {
        assert(spec_encode(tcs) =~= Seq::<char>::empty());
        assert(i == s.len());
        assert(tcs =~= Seq::<(Seq<char>, Seq<char>)>::empty());
    } else {
        let inp = tcs[0].0;
        let outp = tcs[0].1;
        let rest = tcs.skip(1);
        let tail = spec_encode(rest);
        assert(spec_encode(tcs) == spec_record(inp, outp) + tail);
        assert(has_lit(s, i, spec_encode(tcs)));
        let p1 = lit_head();
        let p2 = spec_escape(inp) + seq!['"'];
        let p3 = lit_mid();
        let p4 = spec_escape(outp) + seq!['"'];
        let p5 = lit_tail();
        assert(spec_encode(tcs) =~= p1 + (p2 + (p3 + (p4 + (p5 + tail)))));
        lemma_split_lit(s, i, p1, p2 + (p3 + (p4 + (p5 + tail))));
        let i1 = i + p1.len();
        lemma_split_lit(s, i1, p2, p3 + (p4 + (p5 + tail)));
        let j1 = i1 + p2.len();
        lemma_split_lit(s, j1, p3, p4 + (p5 + tail));
        let j1b = j1 + p3.len();
        lemma_split_lit(s, j1b, p4, p5 + tail);
        let j2 = j1b + p4.len();
        lemma_split_lit(s, j2, p5, tail);
        let next = j2 + p5.len();
        lemma_scan_escape(s, i1, inp);
        lemma_scan_escape(s, j1b, outp);
        assert(next + tail.len() == s.len());
        assert(s.subrange(next, s.len() as int) == tail);
        lemma_parse_of_encode(s, next, rest);
        assert(seq![(inp, outp)] + rest =~= tcs);
    }
}

/// A document the parser accepts is exactly the document of the collection
/// it returns.
proof fn lemma_encode_of_parse(s: Seq<char>, i: int)
    requires
        spec_parse_rec(s, i) is Some,
    ensures
        s.subrange(i, s.len() as int) == spec_encode(spec_parse_rec(s, i)->Some_0),
    decreases s.len() - i,
{
    let tcs = spec_parse_rec(s, i)->Some_0;
    if i == s.len() {
        assert(s.subrange(i, s.len() as int) =~= Seq::<char>::empty());
        assert(spec_encode(tcs) =~= Seq::<char>::empty());
    } else {
        let i1 = i + lit_head().len();
        let pin = spec_scan(s, i1)->Some_0;
        let inp = pin.0;
        let j1 = pin.1;
        let j1b = j1 + lit_mid().len();
        let pout = spec_scan(s, j1b)->Some_0;
        let outp = pout.0;
        let j2 = pout.1;
        let next = j2 + lit_tail().len();
        let rest = spec_parse_rec(s, next)->Some_0;
        lemma_scan_inverse(s, i1);
        lemma_scan_inverse(s, j1b);
        lemma_encode_of_parse(s, next);
        assert(tcs == seq![(inp, outp)] + rest);
        assert(tcs[0] == (inp, outp));
        assert(tcs.skip(1) =~= rest);
        assert(spec_encode(tcs) == spec_record(inp, outp) + spec_encode(rest));
        let hl = lit_head().len() as int;
        let e1 = spec_escape(inp).len() as int;
        let ml = lit_mid().len() as int;
        let e2 = spec_escape(outp).len() as int;
        let tl = lit_tail().len() as int;
        let whole = spec_record(inp, outp) + spec_encode(rest);
        assert forall|k: int|
            0 <= k < s.len() - i implies s.subrange(i, s.len() as int)[k] == whole[k] by {
            if k < hl {
                assert(s.subrange(i, i + hl)[k] == lit_head()[k]);
            } else if k < hl + e1 + 1 {
                assert(s.subrange(i1, i1 + e1 + 1)[k - hl] == (spec_escape(inp) + seq!['"'])[k
                    - hl]);
            } else if k < hl + e1 + 1 + ml {
                assert(s.subrange(j1, j1 + ml)[k - hl - e1 - 1] == lit_mid()[k - hl - e1 - 1]);
            } else if k < hl + e1 + 1 + ml + e2 + 1 {
                assert(s.subrange(j1b, j1b + e2 + 1)[k - hl - e1 - 1 - ml] == (spec_escape(outp)
                    + seq!['"'])[k - hl - e1 - 1 - ml]);
            } else if k < hl + e1 + 1 + ml + e2 + 1 + tl {
                assert(s.subrange(j2, j2 + tl)[k - hl - e1 - 1 - ml - e2 - 1] == lit_tail()[k - hl
                    - e1 - 1 - ml - e2 - 1]);
            } else {
                assert(s.subrange(next, s.len() as int)[k - hl - e1 - 1 - ml - e2 - 1 - tl]
                    == spec_encode(rest)[k - hl - e1 - 1 - ml - e2 - 1 - tl]);
            }
        }
        assert(s.subrange(i, s.len() as int) =~= whole);
    }
}

/// A collection saved by the store and loaded back is the identical ordered
/// collection: the cache hands later runs exactly what was fetched.
pub proof fn lemma_save_then_load(tcs: Seq<(Seq<char>, Seq<char>)>)
    ensures
        spec_parse(spec_encode(tcs)) == Some(tcs),
{
    let s = spec_encode(tcs);
    assert(s.subrange(0, s.len() as int) =~= s);
    lemma_parse_of_encode(s, 0, tcs);
}

/// A well-formed cached document, loaded and saved again, is reproduced
/// byte-identically.
pub proof fn lemma_load_then_save(content: Seq<char>)
    requires
        spec_parse(content) is Some,
    ensures
        spec_encode(spec_parse(content)->Some_0) == content,
{
    lemma_encode_of_parse(content, 0);
    assert(content.subrange(0, content.len() as int) =~= content);
}

/// Deserializes a persisted document; `None` exactly on malformed documents.
pub fn parse_testcases(content: &str) -> (r: Option<TestcaseFile>)
    ensures
        match r {
            Some(file) => spec_parse(content@) == Some(file.rep()),
            None => spec_parse(content@) is None,
        },
{
    let v = str_to_chars(content);
    let mut tcs: Vec<Testcase> = Vec::new();
    let mut i: usize = 0;
    proof {
        assert(tcs@.map_values(|t: Testcase| t.rep()) =~= Seq::<(Seq<char>, Seq<char>)>::empty());
    }
    loop
        invariant
            i <= v@.len(),
            v@ == content@,
            match spec_parse_rec(v@, i as int) {
                Some(rest) => spec_parse(content@) == Some(
                    tcs@.map_values(|t: Testcase| t.rep()) + rest,
                ),
                None => spec_parse(content@) is None,
            },
        decreases v@.len() - i,
    {
        let ghost tcs0 = tcs@.map_values(|t: Testcase| t.rep());
        if i == v.len() {
            let file = TestcaseFile::new(tcs);
            proof {
                assert(tcs0 + Seq::<(Seq<char>, Seq<char>)>::empty() =~= tcs0);
            }
            return Some(file);
        }
        if !has_lit_exec(&v, i, "[[testcases]]\ninput = \"") {
            return None;
        }
        let i1 = i + "[[testcases]]\ninput = \"".unicode_len();
        let scanned_input = scan_exec(&v, i1);
        match scanned_input {
            None => {
                return None;
            },
            Some((input_chars, j1)) => {
                proof {
                    lemma_scan_bounds(v@, i1 as int);
                }
                if !has_lit_exec(&v, j1, "\noutput = \"") {
                    return None;
                }
                let j1b = j1 + "\noutput = \"".unicode_len();
                let scanned_output = scan_exec(&v, j1b);
                match scanned_output {
                    None => {
                        return None;
                    },
                    Some((output_chars, j2)) => {
                        proof {
                            lemma_scan_bounds(v@, j1b as int);
                        }
                        if !has_lit_exec(&v, j2, "\n\n") {
                            return None;
                        }
                        let next = j2 + "\n\n".unicode_len();
                        let input_text = chars_to_string(&input_chars);
                        let output_text = chars_to_string(&output_chars);
                        tcs.push(Testcase::new(input_text, output_text));
                        proof {
                            assert(tcs@.map_values(|t: Testcase| t.rep()) =~= tcs0 + seq![
                                (input_chars@, output_chars@),
                            ]);
                            match spec_parse_rec(v@, next as int) {
                                Some(rest) => {
                                    assert((tcs0 + seq![(input_chars@, output_chars@)]) + rest
                                        =~= tcs0 + (seq![(input_chars@, output_chars@)] + rest));
                                },
                                None => {},
                            }
                        }
                        i = next;
                    },
                }
            },
        }
    }
}

} // verus!
