//! The template-substitution engine: the template's placeholder markers `{}`
//! are the only fill targets. They are filled left to right, one caller
//! argument each, the argument's text inserted literally; arguments left over
//! once every marker is filled are appended after a single space each;
//! markers left over once every argument is consumed stay verbatim.

use vstd::prelude::*;

verus! {

/// A placeholder marker `{}` stands at position `i` of `t`.
pub open spec fn marker_at(t: Seq<char>, i: int) -> bool {
    &&& 0 <= i
    &&& i + 2 <= t.len()
    &&& t[i] == '{'
    &&& t[i + 1] == '}'
}

/// The position of the leftmost placeholder marker in `t`, if any.
pub open spec fn find_marker(t: Seq<char>) -> Option<int>
    decreases t.len(),
{
    if t.len() < 2 {
        None
    } else if t[0] == '{' && t[1] == '}' {
        Some(0)
    } else {
        match find_marker(t.drop_first()) {
            Some(i) => Some(i + 1),
            None => None,
        }
    }
}

/// What `find_marker` returns is a marker position, and the leftmost one.
pub proof fn lemma_find_marker_at(t: Seq<char>, i: int)
    requires
        find_marker(t) == Some(i),
    ensures
        marker_at(t, i),
        forall|j: int| 0 <= j < i ==> !marker_at(t, j),
    decreases t.len(),
{
    if t.len() < 2 {
    } else if t[0] == '{' && t[1] == '}' {
    } else {
        let t2 = t.drop_first();
        lemma_find_marker_at(t2, i - 1);
        assert(t2[i - 1] == t[i]);
        assert(t2[i] == t[i + 1]);
        assert forall|j: int| 0 <= j < i implies !marker_at(t, j) by {
            if j == 0 {
                assert(!(t[0] == '{' && t[1] == '}'));
            } else {
                assert(!marker_at(t2, j - 1));
                assert(t2[j - 1] == t[j]);
                assert(t2[j] == t[j + 1]);
            }
        }
    }
}

/// The leftmost marker position is what `find_marker` returns.
pub proof fn lemma_find_marker_least(t: Seq<char>, i: int)
    requires
        marker_at(t, i),
        forall|j: int| 0 <= j < i ==> !marker_at(t, j),
    ensures
        find_marker(t) == Some(i),
    decreases t.len(),
{
    if i == 0 {
    } else {
        assert(!marker_at(t, 0));
        let t2 = t.drop_first();
        assert(t2[i - 1] == t[i]);
        assert(t2[i] == t[i + 1]);
        assert(marker_at(t2, i - 1));
        assert forall|j: int| 0 <= j < i - 1 implies !marker_at(t2, j) by {
            assert(!marker_at(t, j + 1));
            assert(t2[j] == t[j + 1]);
            assert(t2[j + 1] == t[j + 2]);
        }
        lemma_find_marker_least(t2, i - 1);
    }
}

/// If no position of `t` holds a marker, `find_marker` finds nothing.
pub proof fn lemma_find_marker_absent(t: Seq<char>)
    requires
        forall|j: int| !marker_at(t, j),
    ensures
        find_marker(t) is None,
{
    match find_marker(t) {
        Some(i) => {
            lemma_find_marker_at(t, i);
            assert(false);
        },
        None => {},
    }
}

/// The arguments appended to `t` in order, each preceded by a single space.
pub open spec fn append_all(t: Seq<char>, args: Seq<Seq<char>>) -> Seq<char>
    decreases args.len(),
{
    if args.len() == 0 {
        t
    } else {
        append_all(t + seq![' '] + args[0], args.drop_first())
    }
}

/// The full substitution: each argument in turn fills the leftmost marker
/// still unfilled in the template, its text inserted literally; the search
/// goes on in the template's remainder, never in inserted text; arguments
/// left once no marker remains are appended, each after a single space.
pub open spec fn subst(t: Seq<char>, args: Seq<Seq<char>>) -> Seq<char>
    decreases args.len(),
{
    if args.len() == 0 {
        t
    } else {
        match find_marker(t) {
            Some(i) => t.take(i) + args[0] + subst(t.skip(i + 2), args.drop_first()),
            None => append_all(t, args),
        }
    }
}

/// The number of placeholder markers in `t`, counted as substitution fills
/// them: leftmost first, non-overlapping.
pub open spec fn marker_count(t: Seq<char>) -> nat
    decreases t.len(),
    via marker_count_decreases
{
    match find_marker(t) {
        Some(i) => 1 + marker_count(t.skip(i + 2)),
        None => 0,
    }
}

#[via_fn]
proof fn marker_count_decreases(t: Seq<char>) {
    match find_marker(t) {
        Some(i) => {
            lemma_find_marker_at(t, i);
        },
        None => {},
    }
}

/// The template's first `args.len()` markers replaced by the arguments in
/// order; markers beyond them stay verbatim.
pub open spec fn fill(t: Seq<char>, args: Seq<Seq<char>>) -> Seq<char>
    decreases args.len(),
{
    if args.len() == 0 {
        t
    } else {
        match find_marker(t) {
            Some(i) => t.take(i) + args[0] + fill(t.skip(i + 2), args.drop_first()),
            None => t,
        }
    }
}

/// Appending distributes over a prefix of the base text.
proof fn lemma_append_all_prepend(u: Seq<char>, v: Seq<char>, args: Seq<Seq<char>>)
    ensures
        append_all(u + v, args) == u + append_all(v, args),
    decreases args.len(),
{
    if args.len() == 0 {
    } else {
        assert(u + v + seq![' '] + args[0] =~= u + (v + seq![' '] + args[0]));
        lemma_append_all_prepend(u, v + seq![' '] + args[0], args.drop_first());
    }
}

/// The shape of a full substitution: with `k` the number of markers in the
/// template and `n` the number of arguments, the first `min(k, n)` arguments
/// fill the template's markers left to right, their text inserted literally;
/// when `n > k` the remaining arguments are appended in order, each after a
/// single space; when `n < k` the unmatched markers remain verbatim.
pub proof fn lemma_substitution_shape(t: Seq<char>, args: Seq<Seq<char>>)
    ensures
        ({
            let k = if marker_count(t) <= args.len() {
                marker_count(t) as int
            } else {
                args.len() as int
            };
            subst(t, args) == append_all(fill(t, args.take(k)), args.skip(k))
        }),
    decreases args.len(),
{
    if args.len() == 0 {
        assert(args.take(0) =~= args);
        assert(args.skip(0) =~= args);
    } else {
        let rest = args.drop_first();
        match find_marker(t) {
            Some(i) => {
                lemma_find_marker_at(t, i);
                let suffix = t.skip(i + 2);
                lemma_substitution_shape(suffix, rest);
                let k = if marker_count(t) <= args.len() {
                    marker_count(t) as int
                } else {
                    args.len() as int
                };
                let k2 = if marker_count(suffix) <= rest.len() {
                    marker_count(suffix) as int
                } else {
                    rest.len() as int
                };
                assert(marker_count(t) == 1 + marker_count(suffix));
                assert(k2 == k - 1);
                assert(args.take(k)[0] == args[0]);
                assert(args.take(k).drop_first() =~= rest.take(k - 1));
                assert(args.skip(k) =~= rest.skip(k - 1));
                assert(fill(t, args.take(k)) == t.take(i) + args[0] + fill(
                    suffix,
                    rest.take(k - 1),
                ));
                lemma_append_all_prepend(
                    t.take(i) + args[0],
                    fill(suffix, rest.take(k - 1)),
                    rest.skip(k - 1),
                );
            },
            None => {
                assert(marker_count(t) == 0);
                assert(args.take(0) =~= Seq::<Seq<char>>::empty());
                assert(args.skip(0) =~= args);
            },
        }
    }
}

/// The position of the leftmost `{}` in `s`, scanning character by character.
pub fn find_marker_index(s: &str) -> (r: Option<usize>)
    ensures
        (match r {
            Some(i) => find_marker(s@) == Some(i as int),
            None => find_marker(s@) is None,
        }),
{
    let n = s.unicode_len();
    if n < 2 {
        proof {
            lemma_find_marker_absent(s@);
        }
        return None;
    }
    let mut i: usize = 0;
    while i + 1 < n
        invariant
            n == s@.len(),
            0 <= i < n,
            forall|j: int| 0 <= j < i ==> !marker_at(s@, j),
        decreases n - i,
    {
        if s.get_char(i) == '{' && s.get_char(i + 1) == '}' {
            proof {
                lemma_find_marker_least(s@, i as int);
            }
            return Some(i);
        }
        i += 1;
    }
    proof {
        lemma_find_marker_absent(s@);
    }
    None
}

/// Substitutes the arguments into the template, exactly as the engine's
/// contract describes: the template's own markers are filled left to right
/// with the arguments' literal text, leftover arguments are appended
/// space-separated.
#[verifier::loop_isolation(false)]
pub fn substitute(template: &str, args: &Vec<String>) -> (r: String)
    ensures
        r@ == subst(template@, args.deep_view()),
{
    let ghost tv = template@;
    let ghost argv = args.deep_view();
    let n = template.unicode_len();
    let mut result = String::new();
    let mut pos: usize = 0;
    let mut idx: usize = 0;
    let mut scanning = true;
    proof {
        assert(tv.skip(0) =~= tv);
        assert(argv.skip(0) =~= argv);
        assert(result@ + subst(tv, argv) =~= subst(tv, argv));
    }
    while scanning && idx < args.len()
        invariant
            n == tv.len(),
            argv.len() == args.len(),
            pos <= n,
            idx <= args.len(),
            subst(tv, argv) == result@ + subst(tv.skip(pos as int), argv.skip(idx as int)),
            !scanning ==> find_marker(tv.skip(pos as int)) is None,
        decreases
                args.len() - idx,
                (if scanning {
                    1int
                } else {
                    0int
                }),
    {
        let suffix = template.substring_char(pos, n);
        proof {
            assert(suffix@ =~= tv.skip(pos as int));
        }
        match find_marker_index(suffix) {
            Some(i) => {
                proof {
                    lemma_find_marker_at(tv.skip(pos as int), i as int);
                }
                let ghost r0 = result@;
                result.append(template.substring_char(pos, pos + i));
                result.append(args[idx].as_str());
                proof {
                    let old_tail = subst(tv.skip(pos as int), argv.skip(idx as int));
                    assert(tv.skip(pos as int).take(i as int) =~= tv.subrange(
                        pos as int,
                        pos + i,
                    ));
                    assert(argv.skip(idx as int)[0] == argv[idx as int]);
                    assert(tv.skip(pos as int).skip(i + 2) =~= tv.skip(pos + i + 2));
                    assert(argv.skip(idx as int).drop_first() =~= argv.skip(idx + 1));
                    assert(r0 + old_tail =~= result@ + subst(tv.skip(pos + i + 2), argv.skip(
                        idx + 1,
                    )));
                }
                pos = pos + i + 2;
                idx = idx + 1;
            },
            None => {
                scanning = false;
            },
        }
    }
    let ghost r1 = result@;
    result.append(template.substring_char(pos, n));
    proof {
        assert(tv.skip(pos as int) =~= tv.subrange(pos as int, n as int));
        if idx < args.len() {
            assert(subst(tv.skip(pos as int), argv.skip(idx as int)) == append_all(
                tv.skip(pos as int),
                argv.skip(idx as int),
            ));
            lemma_append_all_prepend(r1, tv.skip(pos as int), argv.skip(idx as int));
        } else {
            assert(argv.skip(idx as int) =~= Seq::<Seq<char>>::empty());
        }
        assert(subst(tv, argv) == append_all(result@, argv.skip(idx as int)));
    }
    while idx < args.len()
        invariant
            argv.len() == args.len(),
            idx <= args.len(),
            subst(tv, argv) == append_all(result@, argv.skip(idx as int)),
        decreases args.len() - idx,
    {
        let ghost r0 = result@;
        result.append(" ");
        result.append(args[idx].as_str());
        proof {
            assert(" "@ =~= seq![' ']) by {
                reveal_strlit(" ");
            }
            assert(argv.skip(idx as int)[0] == argv[idx as int]);
            assert(argv.skip(idx as int).drop_first() =~= argv.skip(idx + 1));
            assert(result@ =~= r0 + seq![' '] + argv[idx as int]);
        }
        idx += 1;
    }
    proof {
        assert(argv.skip(args.len() as int) =~= Seq::<Seq<char>>::empty());
    }
    result
}

} // verus!
