use crate::codec::{chars_to_string, str_to_chars};
use vstd::prelude::*;

verus! {

/// The placeholder token in compile- and run-argument templates that is
/// substituted with the resolved task/file base name.
pub open spec fn spec_placeholder() -> Seq<char> {
    seq!['<', 'T', 'A', 'S', 'K', '>']
}

/// Template expansion: every (leftmost, non-overlapping) occurrence of the
/// placeholder is replaced by `name`; all other characters are kept.
pub open spec fn spec_subst(t: Seq<char>, name: Seq<char>) -> Seq<char>
    decreases t.len(),
{
    if t.len() == 0 {
        Seq::empty()
    } else if t.len() >= 6 && t.subrange(0, 6) == spec_placeholder() {
        name + spec_subst(t.skip(6), name)
    } else {
        seq![t[0]] + spec_subst(t.skip(1), name)
    }
}

/// Tokenization of an expanded template on single spaces, empty pieces kept;
/// `cur` is the piece being collected. There is no quoting or escaping, so an
/// argument cannot contain a space: a known, documented limitation.
pub open spec fn spec_split_acc(s: Seq<char>, cur: Seq<char>) -> Seq<Seq<char>>
    decreases s.len(),
{
    if s.len() == 0 {
        seq![cur]
    } else if s[0] == ' ' {
        seq![cur] + spec_split_acc(s.skip(1), Seq::empty())
    } else {
        spec_split_acc(s.skip(1), cur.push(s[0]))
    }
}

/// The argument pieces of an expanded template, split on single spaces.
pub open spec fn spec_split(s: Seq<char>) -> Seq<Seq<char>> {
    spec_split_acc(s, Seq::empty())
}

/// The character sequences of a sequence of strings.
pub open spec fn strings_rep(v: Seq<String>) -> Seq<Seq<char>> {
    v.map_values(|x: String| x@)
}

/// Appends all characters of `src` to `dst`.
pub fn push_all(dst: &mut Vec<char>, src: &Vec<char>)
    ensures
        final(dst)@ == old(dst)@ + src@,
{
    let mut k: usize = 0;
    while k < src.len()
        invariant
            k <= src@.len(),
            dst@ == old(dst)@ + src@.subrange(0, k as int),
        decreases src@.len() - k,
    {
        let ghost pre = dst@;
        dst.push(src[k]);
        proof {
            assert(pre.push(src@[k as int]) =~= old(dst)@ + src@.subrange(0, k + 1));
        }
        k = k + 1;
    }
    proof {
        assert(src@.subrange(0, src@.len() as int) =~= src@);
    }
}

fn subst_chars(t: &Vec<char>, name: &Vec<char>) -> (r: Vec<char>)
    ensures
        r@ == spec_subst(t@, name@),
{
    let mut r: Vec<char> = Vec::new();
    let mut i: usize = 0;
    proof {
        assert(t@.skip(0) =~= t@);
        assert(Seq::<char>::empty() + spec_subst(t@, name@) =~= spec_subst(t@, name@));
    }
    while i < t.len()
        invariant
            i <= t@.len(),
            spec_subst(t@, name@) == r@ + spec_subst(t@.skip(i as int), name@),
        decreases t@.len() - i,
    {
        let ghost rest = t@.skip(i as int);
        let is_placeholder = t.len() - i >= 6 && t[i] == '<' && t[i + 1] == 'T' && t[i + 2] == 'A'
            && t[i + 3] == 'S' && t[i + 4] == 'K' && t[i + 5] == '>';
        if is_placeholder {
            proof {
                assert(rest.subrange(0, 6) =~= spec_placeholder());
                assert(rest.skip(6) =~= t@.skip(i + 6));
                assert((r@ + name@) + spec_subst(t@.skip(i + 6), name@) =~= r@ + (name@
                    + spec_subst(t@.skip(i + 6), name@)));
            }
            push_all(&mut r, name);
            i = i + 6;
        } else {
            proof {
                if rest.len() >= 6 && rest.subrange(0, 6) == spec_placeholder() {
                    assert(rest.subrange(0, 6)[0] == t@[i as int]);
                    assert(rest.subrange(0, 6)[1] == t@[i as int + 1]);
                    assert(rest.subrange(0, 6)[2] == t@[i as int + 2]);
                    assert(rest.subrange(0, 6)[3] == t@[i as int + 3]);
                    assert(rest.subrange(0, 6)[4] == t@[i as int + 4]);
                    assert(rest.subrange(0, 6)[5] == t@[i as int + 5]);
                    assert(false);
                }
                assert(rest[0] == t@[i as int]);
                assert(rest.skip(1) =~= t@.skip(i + 1));
                assert((r@ + seq![t@[i as int]]) + spec_subst(t@.skip(i + 1), name@) =~= r@ + (seq![
                    t@[i as int],
                ] + spec_subst(t@.skip(i + 1), name@)));
            }
            r.push(t[i]);
            i = i + 1;
        }
    }
    proof {
        assert(t@.skip(t@.len() as int) =~= Seq::<char>::empty());
        assert(r@ + Seq::<char>::empty() =~= r@);
    }
    r
}

/// Expands the placeholder in a template with the task/file base name.
pub fn substitute(template: &str, base_name: &str) -> (r: String)
    ensures
        r@ == spec_subst(template@, base_name@),
{
    let t = str_to_chars(template);
    let n = str_to_chars(base_name);
    let out = subst_chars(&t, &n);
    chars_to_string(&out)
}

/// Splits an expanded template into discrete arguments on single spaces.
pub fn split_spaces(s: &str) -> (r: Vec<String>)
    ensures
        strings_rep(r@) == spec_split(s@),
{
    let cs = str_to_chars(s);
    let mut out: Vec<String> = Vec::new();
    let mut cur: Vec<char> = Vec::new();
    let mut i: usize = 0;
    proof {
        assert(cs@.skip(0) =~= cs@);
        assert(strings_rep(Seq::<String>::empty()) =~= Seq::<Seq<char>>::empty());
        assert(Seq::<Seq<char>>::empty() + spec_split_acc(s@, Seq::<char>::empty())
            =~= spec_split_acc(s@, Seq::<char>::empty()));
    }
    while i < cs.len()
        invariant
            i <= cs@.len(),
            cs@ == s@,
            spec_split(s@) == strings_rep(out@) + spec_split_acc(cs@.skip(i as int), cur@),
        decreases cs@.len() - i,
    {
        let ghost rest = cs@.skip(i as int);
        let ghost out0 = out@;
        let ghost cur0 = cur@;
        proof {
            assert(rest[0] == cs@[i as int]);
            assert(rest.skip(1) =~= cs@.skip(i + 1));
        }
        let c = cs[i];
        if c == ' ' {
            let piece = chars_to_string(&cur);
            out.push(piece);
            cur = Vec::new();
            proof {
                assert(strings_rep(out@) =~= strings_rep(out0) + seq![cur0]);
                assert((strings_rep(out0) + seq![cur0]) + spec_split_acc(cs@.skip(i + 1), cur@)
                    =~= strings_rep(out0) + (seq![cur0] + spec_split_acc(cs@.skip(i + 1), cur@)));
            }
        } else {
            cur.push(c);
        }
        i = i + 1;
    }
    proof {
        assert(cs@.skip(cs@.len() as int) =~= Seq::<char>::empty());
    }
    let ghost out0 = out@;
    let ghost cur0 = cur@;
    let piece = chars_to_string(&cur);
    out.push(piece);
    proof {
        assert(strings_rep(out@) =~= strings_rep(out0) + seq![cur0]);
    }
    out
}

/// One step of command preparation: expand the placeholder, then tokenize.
pub fn build_args(template: &str, base_name: &str) -> (args: Vec<String>)
    ensures
        strings_rep(args@) == spec_split(spec_subst(template@, base_name@)),
{
    let expanded = substitute(template, base_name);
    split_spaces(expanded.as_str())
}

/// The compile step's argument list. A configured compiler without a
/// compile-argument template is a configuration error, reported as `None`;
/// the caller must abort the run before any testcase is executed.
pub fn compile_invocation(compile_arg: &Option<String>, base_name: &str) -> (r: Option<
    Vec<String>,
>)
    ensures
        match (r, compile_arg) {
            (Some(args), Some(tpl)) => strings_rep(args@) == spec_split(
                spec_subst(tpl@, base_name@),
            ),
            (None, None) => true,
            _ => false,
        },
{
    match compile_arg {
        Some(tpl) => Some(build_args(tpl.as_str(), base_name)),
        None => None,
    }
}

/// The run step's command name and argument list: the command template is
/// always expanded, the argument template only when one is configured.
pub fn run_invocation(command: &str, command_arg: &Option<String>, base_name: &str) -> (r: (
    String,
    Vec<String>,
))
    ensures
        r.0@ == spec_subst(command@, base_name@),
        match command_arg {
            Some(tpl) => strings_rep(r.1@) == spec_split(spec_subst(tpl@, base_name@)),
            None => r.1@.len() == 0,
        },
{
    let name = substitute(command, base_name);
    let args = match command_arg {
        Some(tpl) => build_args(tpl.as_str(), base_name),
        None => Vec::new(),
    };
    (name, args)
}

} // verus!
