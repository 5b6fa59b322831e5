//! Appending arguments to a command's argument vector.

use vstd::prelude::*;

use crate::model::{backend_flag, TargetBackend};

verus! {

/// Appends `s`.
pub fn push_arg(args: &mut Vec<String>, s: &str)
    ensures
        final(args).deep_view() == old(args).deep_view().push(s@),
{
    let ghost before = args.deep_view();
    args.push(crate::text::owned(s));
    assert(args.deep_view() =~= before.push(s@));
}

/// Appends `a` and then `b`.
pub fn push_pair(args: &mut Vec<String>, a: &str, b: &str)
    ensures
        final(args).deep_view() == old(args).deep_view() + seq![a@, b@],
{
    let ghost before = args.deep_view();
    push_arg(args, a);
    push_arg(args, b);
    assert(args.deep_view() =~= before + seq![a@, b@]);
}

/// Appends `s` when `cond` holds.
pub fn push_flag_if(args: &mut Vec<String>, cond: bool, s: &str)
    ensures
        final(args).deep_view() == old(args).deep_view() + flag_if(cond, s@),
{
    let ghost before = args.deep_view();
    if cond {
        push_arg(args, s);
    }
    assert(args.deep_view() =~= before + flag_if(cond, s@));
}

/// Appends each of `v`, in order.
pub fn push_all(args: &mut Vec<String>, v: &Vec<String>)
    ensures
        final(args).deep_view() == old(args).deep_view() + v.deep_view(),
{
    let ghost before = args.deep_view();
    let mut i: usize = 0;
    while i < v.len()
        invariant
            i <= v.len(),
            args.deep_view() == before + v.deep_view().take(i as int),
        decreases v.len() - i,
    {
        push_arg(args, v[i].as_str());
        assert(v.deep_view().take(i + 1) =~= v.deep_view().take(i as int).push(v@[i as int]@));
        assert(args.deep_view() =~= before + v.deep_view().take(i + 1));
        i = i + 1;
    }
    assert(v.deep_view().take(v@.len() as int) =~= v.deep_view());
}

/// Appends `flag` followed by each of `v`'s entries, for every entry.
pub fn push_each_with_flag(args: &mut Vec<String>, flag: &str, v: &Vec<String>)
    ensures
        final(args).deep_view() == old(args).deep_view() + flagged(flag@, v.deep_view()),
{
    let ghost before = args.deep_view();
    let mut i: usize = 0;
    while i < v.len()
        invariant
            i <= v.len(),
            args.deep_view() == before + flagged(flag@, v.deep_view().take(i as int)),
        decreases v.len() - i,
    {
        push_pair(args, flag, v[i].as_str());
        proof {
            let t = v.deep_view().take(i + 1);
            assert(t.drop_last() =~= v.deep_view().take(i as int));
            assert(args.deep_view() =~= before + flagged(flag@, t));
        }
        i = i + 1;
    }
    assert(v.deep_view().take(v@.len() as int) =~= v.deep_view());
}

/// `[s]` when `cond` holds, nothing otherwise.
pub open spec fn flag_if(cond: bool, s: Seq<char>) -> Seq<Seq<char>> {
    if cond {
        seq![s]
    } else {
        Seq::empty()
    }
}

/// `flag v[0] flag v[1] ...`.
pub open spec fn flagged(flag: Seq<char>, v: Seq<Seq<char>>) -> Seq<Seq<char>>
    decreases v.len(),
{
    if v.len() == 0 {
        Seq::empty()
    } else {
        flagged(flag, v.drop_last()) + seq![flag, v.last()]
    }
}

/// `[flag, value]` when `value` is given, nothing otherwise.
pub open spec fn opt_pair(flag: Seq<char>, value: Option<Seq<char>>) -> Seq<Seq<char>> {
    match value {
        Some(v) => seq![flag, v],
        None => Seq::empty(),
    }
}

/// Appends `flag` and the value, when one is given.
pub fn push_opt_pair(args: &mut Vec<String>, flag: &str, value: &Option<String>)
    ensures
        final(args).deep_view() == old(args).deep_view() + opt_pair(
            flag@,
            match value {
                Some(v) => Some(v@),
                None => None,
            },
        ),
{
    let ghost before = args.deep_view();
    match value {
        Some(v) => push_pair(args, flag, v.as_str()),
        None => {},
    }
    assert(args.deep_view() =~= before + opt_pair(
        flag@,
        match value {
            Some(v) => Some(v@),
            None => None,
        },
    ));
}

/// The value of an optional string.
pub open spec fn opt_view(o: Option<String>) -> Option<Seq<char>> {
    match o {
        Some(s) => Some(s@),
        None => None,
    }
}

/// An argument placed between `x` and `y` makes `x + y` with that argument
/// inserted at the length of `x`, and it occurs there.
pub proof fn lemma_arg_between(x: Seq<Seq<char>>, e: Seq<char>, y: Seq<Seq<char>>)
    ensures
        x + seq![e] + y == (x + y).insert(x.len() as int, e),
        (x + seq![e] + y)[x.len() as int] == e,
        (x + seq![e] + y).contains(e),
{
    assert(x + seq![e] + y =~= (x + y).insert(x.len() as int, e));
    assert((x + seq![e] + y)[x.len() as int] == e);
}

/// An argument placed in the middle part of three makes the same sequence
/// as without it, the argument inserted where it stands.
pub proof fn lemma_arg_inside(a: Seq<Seq<char>>, p: Seq<Seq<char>>, e: Seq<char>, q: Seq<Seq<char>>, b: Seq<Seq<char>>)
    ensures
        a + (p + seq![e] + q) + b == (a + (p + q) + b).insert((a.len() + p.len()) as int, e),
        (a + (p + seq![e] + q) + b)[(a.len() + p.len()) as int] == e,
{
    assert(a + (p + seq![e] + q) + b =~= (a + (p + q) + b).insert((a.len() + p.len()) as int, e));
}

/// What arguments follow from appending a conditional flag.
pub proof fn lemma_flag_if_contains(s: Seq<Seq<char>>, b: bool, y: Seq<char>)
    ensures
        forall|x: Seq<char>| #[trigger] (s + flag_if(b, y)).contains(x) <==> s.contains(x) || (b && y == x),
        s.no_duplicates() && !s.contains(y) ==> (s + flag_if(b, y)).no_duplicates(),
{
    let r = s + flag_if(b, y);
    assert forall|x: Seq<char>| r.contains(x) <==> s.contains(x) || (b && y == x) by {
        if r.contains(x) {
            let t = choose|t: int| 0 <= t < r.len() && r[t] == x;
            if t < s.len() {
                assert(s[t] == x);
            }
        }
        if s.contains(x) {
            let t = choose|t: int| 0 <= t < s.len() && s[t] == x;
            assert(r[t] == x);
        }
        if b && y == x {
            assert(r[s.len() as int] == x);
        }
    }
    if s.no_duplicates() && !s.contains(y) {
        assert forall|i: int, j: int| 0 <= i < r.len() && 0 <= j < r.len() && i != j implies r[i] != r[j] by {
            if i < s.len() && j < s.len() {
            } else if i < s.len() {
                assert(r[j] == y);
                assert(s[i] == r[i]);
            } else if j < s.len() {
                assert(r[i] == y);
                assert(s[j] == r[j]);
            }
        }
    }
}

/// The target part of a link: `-target` and the backend's name, then `-g`,
/// `-O0` and `-source-map` exactly when debug symbols, no optimization and
/// a source map are asked for, each once.
pub proof fn lemma_target_part(b: TargetBackend, symbols: bool, no_opt: bool, source_map: bool)
    ensures
        ({
            let t = seq!["-target"@, backend_flag(b)] + flag_if(symbols, "-g"@) + flag_if(no_opt, "-O0"@)
                + flag_if(source_map, "-source-map"@);
            &&& t[0] == "-target"@
            &&& t[1] == backend_flag(b)
            &&& (t.contains("-g"@) <==> symbols)
            &&& (t.contains("-O0"@) <==> no_opt)
            &&& (t.contains("-source-map"@) <==> source_map)
            &&& t.no_duplicates()
        }),
{
    reveal_strlit("-target");
    reveal_strlit("-g");
    reveal_strlit("-O0");
    reveal_strlit("-source-map");
    reveal_strlit("wasm");
    reveal_strlit("wasm-gc");
    reveal_strlit("js");
    reveal_strlit("native");
    reveal_strlit("llvm");
    let bf = backend_flag(b);
    assert(bf.len() > 0 && bf[0] != '-');
    let g = "-g"@;
    let o = "-O0"@;
    let m = "-source-map"@;
    let tg = "-target"@;
    assert(tg.len() == 7 && g.len() == 2 && o.len() == 3 && m.len() == 11 && g[0] == '-' && o[0] == '-'
        && m[0] == '-' && tg[0] == '-');
    let s0 = seq![tg, bf];
    assert forall|x: Seq<char>| #[trigger] s0.contains(x) <==> x == tg || x == bf by {
        if x == bf {
            assert(s0[1] == x);
        }
        if x == tg {
            assert(s0[0] == x);
        }
    }
    assert(s0.no_duplicates()) by {
        assert(s0[0] != s0[1]);
    }
    let s1 = s0 + flag_if(symbols, g);
    let s2 = s1 + flag_if(no_opt, o);
    let s3 = s2 + flag_if(source_map, m);
    lemma_flag_if_contains(s0, symbols, g);
    lemma_flag_if_contains(s1, no_opt, o);
    lemma_flag_if_contains(s2, source_map, m);
    assert(s3.contains(g) <==> symbols);
    assert(s3.contains(o) <==> no_opt);
    assert(s3.contains(m) <==> source_map);
}

/// Appending `b` and then `c` appends `b + c`.
pub proof fn lemma_append_assoc(a: Seq<Seq<char>>, b: Seq<Seq<char>>, c: Seq<Seq<char>>)
    ensures
        a + b + c == a + (b + c),
{
    assert(a + b + c =~= a + (b + c));
}

} // verus!
