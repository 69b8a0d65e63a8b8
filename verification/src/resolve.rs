//! Locating the single authoritative config document.
//!
//! A directory target is examined through the names of its direct-child
//! regular files. Candidate selection, lexicographic ordering and the
//! preferred-name tiebreak are pure functions of those names.

use vstd::prelude::*;
use vstd::multiset::Multiset;
use vstd::relations::{sorted_by, total_ordering};
use vstd::seq_lib::lemma_sorted_unique;
use crate::errors::ShenronError;
use crate::text::{join_path, join_with, spec_join_path, spec_join_with, views_of};

verus! {

/// What the file system reports about the target path.
pub enum TargetView {
    /// The target path does not exist.
    Missing,
    /// The target is a regular file.
    File,
    /// The target is a directory; `file_names` are the names of its
    /// direct-child regular files, in no particular order.
    Dir { file_names: Vec<String> },
}

/// Whether `s` ends with `suffix`.
pub open spec fn has_suffix(s: Seq<char>, suffix: Seq<char>) -> bool {
    s.len() >= suffix.len() && s.skip(s.len() - suffix.len()) == suffix
}

/// Whether a file of this name may be the config document: it carries a
/// `.yml` or `.yaml` extension and is not this system's own generated
/// orchestration manifest.
pub open spec fn spec_is_candidate(name: Seq<char>) -> bool {
    &&& ((has_suffix(name, ".yml"@) && name.len() > 4) || (has_suffix(name, ".yaml"@)
        && name.len() > 5))
    &&& name != "docker-compose.yml"@
    &&& name != "docker-compose.yaml"@
}

/// Lexicographic order on character sequences, by code point, with a
/// proper prefix ordered first. Agrees with the byte order of the UTF-8
/// encodings.
pub open spec fn lex_le(a: Seq<char>, b: Seq<char>) -> bool
    decreases a.len(),
{
    if a.len() == 0 {
        true
    } else if b.len() == 0 {
        false
    } else if a[0] == b[0] {
        lex_le(a.drop_first(), b.drop_first())
    } else {
        (a[0] as u32) < (b[0] as u32)
    }
}

/// `lex_le` as a first-class order, for sorting.
pub open spec fn lex_leq() -> spec_fn(Seq<char>, Seq<char>) -> bool {
    |a: Seq<char>, b: Seq<char>| lex_le(a, b)
}

proof fn lemma_char_code_injective(x: char, y: char)
    requires
        x != y,
    ensures
        x as u32 != y as u32,
{
}

proof fn lemma_lex_le_refl(a: Seq<char>)
    ensures
        lex_le(a, a),
    decreases a.len(),
{
    if a.len() > 0 {
        lemma_lex_le_refl(a.drop_first());
    }
}

proof fn lemma_lex_le_antisym(a: Seq<char>, b: Seq<char>)
    requires
        lex_le(a, b),
        lex_le(b, a),
    ensures
        a == b,
    decreases a.len(),
{
    if a.len() == 0 {
        assert(a =~= b);
    } else if a[0] == b[0] {
        lemma_lex_le_antisym(a.drop_first(), b.drop_first());
        assert(a.drop_first() == b.drop_first());
        assert(a.len() == b.len());
        assert forall|i: int| 0 <= i < a.len() implies a[i] == b[i] by {
            if i > 0 {
                assert(a[i] == a.drop_first()[i - 1]);
                assert(b[i] == b.drop_first()[i - 1]);
            }
        }
        assert(a =~= b);
    }
}

proof fn lemma_lex_le_trans(a: Seq<char>, b: Seq<char>, c: Seq<char>)
    requires
        lex_le(a, b),
        lex_le(b, c),
    ensures
        lex_le(a, c),
    decreases a.len(),
{
    if a.len() > 0 && b.len() > 0 && c.len() > 0 {
        if a[0] == b[0] && b[0] == c[0] {
            lemma_lex_le_trans(a.drop_first(), b.drop_first(), c.drop_first());
        }
    }
}

proof fn lemma_lex_le_connected(a: Seq<char>, b: Seq<char>)
    ensures
        lex_le(a, b) || lex_le(b, a),
    decreases a.len(),
{
    if a.len() > 0 && b.len() > 0 {
        if a[0] == b[0] {
            lemma_lex_le_connected(a.drop_first(), b.drop_first());
        } else {
            lemma_char_code_injective(a[0], b[0]);
        }
    }
}

/// The lexicographic order is a total order, so a sorted arrangement of
/// any collection of names is unique.
pub proof fn lemma_lex_leq_total_ordering()
    ensures
        total_ordering(lex_leq()),
{
    let leq = lex_leq();
    assert forall|a: Seq<char>| #[trigger] leq(a, a) by {
        lemma_lex_le_refl(a);
    }
    assert forall|a: Seq<char>, b: Seq<char>| #[trigger] leq(a, b) && #[trigger] leq(b, a)
        implies a == b by {
        lemma_lex_le_antisym(a, b);
    }
    assert forall|a: Seq<char>, b: Seq<char>, c: Seq<char>|
        #[trigger] leq(a, b) && #[trigger] leq(b, c) implies leq(a, c) by {
        lemma_lex_le_trans(a, b, c);
    }
    assert forall|a: Seq<char>, b: Seq<char>| #[trigger] leq(a, b) || #[trigger] leq(b, a) by {
        lemma_lex_le_connected(a, b);
    }
}

proof fn lemma_lex_le_skip(a: Seq<char>, b: Seq<char>, i: int)
    requires
        0 <= i <= a.len(),
        0 <= i <= b.len(),
        forall|j: int| 0 <= j < i ==> a[j] == b[j],
    ensures
        lex_le(a, b) == lex_le(a.skip(i), b.skip(i)),
    decreases i,
{
    if i > 0 {
        assert(a.drop_first().skip(i - 1) =~= a.skip(i));
        assert(b.drop_first().skip(i - 1) =~= b.skip(i));
        lemma_lex_le_skip(a.drop_first(), b.drop_first(), i - 1);
    } else {
        assert(a.skip(0) =~= a);
        assert(b.skip(0) =~= b);
    }
}

/// Decides `lex_le` on two strings.
fn lex_le_exec(a: &String, b: &String) -> (r: bool)
    ensures
        r == lex_le(a@, b@),
{
    let an: usize = a.as_str().unicode_len();
    let bn: usize = b.as_str().unicode_len();
    let mut i: usize = 0;
    loop
        invariant
            i <= an,
            i <= bn,
            an == a@.len(),
            bn == b@.len(),
            forall|j: int| 0 <= j < i ==> a@[j] == b@[j],
        decreases an - i,
    {
        proof {
            lemma_lex_le_skip(a@, b@, i as int);
        }
        if i == an {
            return true;
        }
        if i == bn {
            return false;
        }
        let ca = a.as_str().get_char(i);
        let cb = b.as_str().get_char(i);
        if ca != cb {
            return (ca as u32) < (cb as u32);
        }
        i = i + 1;
    }
}

/// Decides whether two strings are equal.
fn str_eq(a: &String, b: &String) -> (r: bool)
    ensures
        r == (a@ == b@),
{
    a.eq(b)
}

/// Decides candidacy of one file name.
pub fn is_config_candidate(name: &String) -> (r: bool)
    ensures
        r == spec_is_candidate(name@),
{
    let n: usize = name.as_str().unicode_len();
    let mut ok = false;
    if n > 4 {
        let tail = String::from_str(name.as_str().substring_char(n - 4, n));
        if str_eq(&tail, &String::from_str(".yml")) {
            ok = true;
        }
    }
    if !ok && n > 5 {
        let tail = String::from_str(name.as_str().substring_char(n - 5, n));
        if str_eq(&tail, &String::from_str(".yaml")) {
            ok = true;
        }
    }
    proof {
        if n > 4 {
            assert(name@.subrange(n - 4, n as int) =~= name@.skip(n - 4));
        }
        if n > 5 {
            assert(name@.subrange(n - 5, n as int) =~= name@.skip(n - 5));
        }
        reveal_strlit(".yml");
        reveal_strlit(".yaml");
    }
    if !ok {
        return false;
    }
    let r = !str_eq(name, &String::from_str("docker-compose.yml")) && !str_eq(
        name,
        &String::from_str("docker-compose.yaml"),
    );
    r
}

/// Candidacy as a first-class predicate, for filtering.
pub open spec fn candidate_pred() -> spec_fn(Seq<char>) -> bool {
    |s: Seq<char>| spec_is_candidate(s)
}

/// The candidate names among `names`, in their given order.
pub open spec fn spec_candidates(names: Seq<Seq<char>>) -> Seq<Seq<char>> {
    names.filter(candidate_pred())
}

/// Keeps the candidate names, in their given order.
fn candidate_names(names: &Vec<String>) -> (r: Vec<String>)
    ensures
        views_of(r@) == spec_candidates(views_of(names@)),
{
    let mut out: Vec<String> = Vec::new();
    let mut i: usize = 0;
    proof {
        assert(views_of(names@.take(0)) =~= Seq::<Seq<char>>::empty());
        reveal(Seq::filter);
    }
    while i < names.len()
        invariant
            i <= names@.len(),
            views_of(out@) == views_of(names@.take(i as int)).filter(candidate_pred()),
        decreases names@.len() - i,
    {
        let ghost pre = views_of(names@.take(i as int));
        let ghost preout = views_of(out@);
        if is_config_candidate(&names[i]) {
            out.push(names[i].clone());
        }
        proof {
            reveal_with_fuel(Seq::<Seq<char>>::filter, 3);
            let post = views_of(names@.take(i + 1));
            let single = seq![names@[i as int]@];
            assert(post =~= pre + single);
            Seq::filter_distributes_over_add(pre, single, candidate_pred());
            assert(single.drop_last() =~= Seq::<Seq<char>>::empty());
            assert(single.drop_last().filter(candidate_pred()) =~= Seq::<Seq<char>>::empty());
            assert(single.last() == names@[i as int]@);
            assert(candidate_pred()(single.last()) == spec_is_candidate(names@[i as int]@));
            if spec_is_candidate(names@[i as int]@) {
                assert(single.filter(candidate_pred()) =~= single);
                assert(views_of(out@) =~= preout + single);
            } else {
                assert(single.filter(candidate_pred()) =~= Seq::<Seq<char>>::empty());
                assert(pre.filter(candidate_pred()) + single.filter(candidate_pred()) =~= pre.filter(candidate_pred()));
            }
        }
        i = i + 1;
    }
    proof {
        assert(names@.take(names@.len() as int) =~= names@);
    }
    out
}

/// Sorts names into the unique lexicographic arrangement.
fn sort_names(names: Vec<String>) -> (r: Vec<String>)
    ensures
        views_of(r@) == views_of(names@).sort_by(lex_leq()),
{
    let mut out: Vec<String> = Vec::new();
    let mut i: usize = 0;
    proof {
        broadcast use vstd::seq_lib::group_to_multiset_ensures;

        assert(views_of(names@.take(0)) =~= Seq::<Seq<char>>::empty());
        assert(views_of(out@) =~= Seq::<Seq<char>>::empty());
        assert(views_of(out@).to_multiset() =~= views_of(names@.take(0)).to_multiset());
    }
    while i < names.len()
        invariant
            i <= names@.len(),
            sorted_by(views_of(out@), lex_leq()),
            views_of(out@).to_multiset() == views_of(names@.take(i as int)).to_multiset(),
        decreases names@.len() - i,
    {
        let x = names[i].clone();
        let ghost v = views_of(out@);
        let mut j: usize = 0;
        let mut found = false;
        while !found && j < out.len()
            invariant
                j <= out@.len(),
                out@.len() == v.len(),
                views_of(out@) == v,
                x@ == names@[i as int]@,
                forall|k: int| 0 <= k < j ==> !lex_le(x@, v[k]),
                found ==> j < v.len() && lex_le(x@, v[j as int]),
            decreases out@.len() - j + (if found { 0int } else { 1int }),
        {
            if lex_le_exec(&x, &out[j]) {
                found = true;
            } else {
                j = j + 1;
            }
        }
        out.insert(j, x);
        proof {
            broadcast use vstd::seq_lib::group_to_multiset_ensures;

            let v2 = views_of(out@);
            let xx = names@[i as int]@;
            assert(v2 =~= v.take(j as int) + seq![xx] + v.skip(j as int));
            assert(v2.len() == v.len() + 1);
            assert forall|k: int| 0 <= k < v2.len() implies v2[k] == (if k < j {
                v[k]
            } else if k == j {
                xx
            } else {
                v[k - 1]
            }) by {}
            // the new arrangement is still sorted
            let leq = lex_leq();
            assert forall|p: int, q: int| 0 <= p < q < v2.len() implies leq(v2[p], v2[q]) by {
                if q < j {
                    assert(leq(v[p], v[q]));
                } else if p > j {
                    assert(leq(v[p - 1], v[q - 1]));
                } else if p < j && q == j {
                    lemma_lex_le_connected(v[p], xx);
                } else if p < j && q > j {
                    assert(leq(v[p], v[q - 1]));
                } else if p == j && q > j {
                    // the loop stopped at the first position not below x
                    assert(found);
                    assert(lex_le(xx, v[j as int]));
                    if j < q - 1 {
                        assert(leq(v[j as int], v[q - 1]));
                        lemma_lex_le_trans(xx, v[j as int], v[q - 1]);
                    }
                }
            }
            assert(sorted_by(v2, leq));
            // and carries the same names, plus the inserted one
            assert(v =~= v.take(j as int) + v.skip(j as int));
            vstd::seq_lib::lemma_multiset_commutative(v.take(j as int), v.skip(j as int));
            vstd::seq_lib::lemma_multiset_commutative(
                v.take(j as int) + seq![xx],
                v.skip(j as int),
            );
            vstd::seq_lib::lemma_multiset_commutative(v.take(j as int), seq![xx]);
            assert(seq![xx].to_multiset() =~= Multiset::<Seq<char>>::empty().insert(xx));
            assert(v2.to_multiset() =~= v.to_multiset().insert(xx));
            let post = views_of(names@.take(i + 1));
            assert(post.drop_last() =~= views_of(names@.take(i as int)));
            assert(post =~= views_of(names@.take(i as int)).push(xx));
        }
        i = i + 1;
    }
    proof {
        assert(names@.take(names@.len() as int) =~= names@);
        let leq = lex_leq();
        lemma_lex_leq_total_ordering();
        views_of(names@).lemma_sort_by_ensures(leq);
        lemma_sorted_unique(views_of(out@), views_of(names@).sort_by(leq), leq);
    }
    out
}

/// The outcome of examining a directory target.
pub enum Resolution {
    /// No candidate file: resolution fails.
    NoCandidate,
    /// This path is the config document.
    Chosen(Seq<char>),
    /// Several candidates and no preferred name among them; carries the
    /// sorted, comma-joined candidate file names.
    Ambiguous(Seq<char>),
}

/// The candidate names of a directory listing, in lexicographic order.
pub open spec fn spec_sorted_candidates(names: Seq<Seq<char>>) -> Seq<Seq<char>> {
    spec_candidates(names).sort_by(lex_leq())
}

/// The resolution rule for a directory target: a sole candidate wins; among
/// several, a file named `shenron.yml`, then `shenron.yaml`, is preferred;
/// otherwise the choice is ambiguous.
pub open spec fn spec_resolve_dir(target: Seq<char>, names: Seq<Seq<char>>) -> Resolution {
    let cands = spec_sorted_candidates(names);
    if cands.len() == 0 {
        Resolution::NoCandidate
    } else if cands.len() == 1 {
        Resolution::Chosen(spec_join_path(target, cands[0]))
    } else if cands.contains("shenron.yml"@) {
        Resolution::Chosen(spec_join_path(target, "shenron.yml"@))
    } else if cands.contains("shenron.yaml"@) {
        Resolution::Chosen(spec_join_path(target, "shenron.yaml"@))
    } else {
        Resolution::Ambiguous(spec_join_with(cands, ", "@))
    }
}

/// Decides whether some string in `v` reads `name`.
fn contains_name(v: &Vec<String>, name: &str) -> (r: bool)
    ensures
        r == views_of(v@).contains(name@),
{
    let needle = String::from_str(name);
    let mut i: usize = 0;
    while i < v.len()
        invariant
            i <= v@.len(),
            needle@ == name@,
            forall|k: int| 0 <= k < i ==> views_of(v@)[k] != name@,
        decreases v@.len() - i,
    {
        if str_eq(&v[i], &needle) {
            proof {
                assert(views_of(v@)[i as int] == name@);
            }
            return true;
        }
        i = i + 1;
    }
    false
}

/// Chooses the single authoritative config file for a target path, given
/// what the file system reports about it.
pub fn resolve_config_path(target: &String, view: &TargetView) -> (r: Result<
    String,
    ShenronError,
>)
    ensures
        match *view {
            TargetView::Missing => r matches Err(ShenronError::MissingTarget(p)) && p@ == target@,
            TargetView::File => r matches Ok(p) && p@ == target@,
            TargetView::Dir { ref file_names } => match spec_resolve_dir(
                target@,
                views_of(file_names@),
            ) {
                Resolution::NoCandidate => r matches Err(ShenronError::MissingConfig(p)) && p@
                    == target@,
                Resolution::Chosen(path) => r matches Ok(p) && p@ == path,
                Resolution::Ambiguous(files) => r matches Err(
                    ShenronError::AmbiguousConfig { dir, files: f },
                ) && dir@ == target@ && f@ == files,
            },
        },
{
    match view {
        TargetView::Missing => Err(ShenronError::MissingTarget(target.clone())),
        TargetView::File => Ok(target.clone()),
        TargetView::Dir { file_names } => {
            let cands = candidate_names(file_names);
            let sorted = sort_names(cands);
            if sorted.len() == 0 {
                Err(ShenronError::MissingConfig(target.clone()))
            } else if sorted.len() == 1 {
                Ok(join_path(target.as_str(), sorted[0].as_str()))
            } else if contains_name(&sorted, "shenron.yml") {
                Ok(join_path(target.as_str(), "shenron.yml"))
            } else if contains_name(&sorted, "shenron.yaml") {
                Ok(join_path(target.as_str(), "shenron.yaml"))
            } else {
                let files = join_with(&sorted, ", ");
                Err(ShenronError::AmbiguousConfig { dir: target.clone(), files })
            }
        },
    }
}

/// Law: a layout with exactly one candidate resolves to that candidate,
/// whatever other files stand beside it.
pub proof fn lemma_single_candidate_resolves(target: Seq<char>, names: Seq<Seq<char>>)
    requires
        spec_candidates(names).len() == 1,
    ensures
        spec_resolve_dir(target, names) == Resolution::Chosen(
            spec_join_path(target, spec_candidates(names)[0]),
        ),
{
    broadcast use vstd::seq_lib::group_to_multiset_ensures;

    let leq = lex_leq();
    let cands = spec_candidates(names);
    let sorted = cands.sort_by(leq);
    lemma_lex_leq_total_ordering();
    cands.lemma_sort_by_ensures(leq);
    assert(cands.to_multiset() == sorted.to_multiset());
    assert(cands.to_multiset().len() == cands.len());
    assert(sorted.to_multiset().len() == sorted.len());
    assert(sorted.len() == 1);
    lemma_sorted_unique(cands, sorted, leq);
    assert(cands =~= sorted);
}

/// Law: this system's own generated orchestration manifest is never a
/// candidate config.
pub proof fn lemma_generated_manifest_not_candidate()
    ensures
        !spec_is_candidate("docker-compose.yml"@),
        !spec_is_candidate("docker-compose.yaml"@),
{
}

/// Law: adding a generated orchestration manifest to a directory changes
/// nothing about resolution.
pub proof fn lemma_compose_ignored(target: Seq<char>, names: Seq<Seq<char>>, compose: Seq<char>)
    requires
        compose == "docker-compose.yml"@ || compose == "docker-compose.yaml"@,
    ensures
        spec_candidates(names.push(compose)) == spec_candidates(names),
        spec_resolve_dir(target, names.push(compose)) == spec_resolve_dir(target, names),
{
    reveal_with_fuel(Seq::<Seq<char>>::filter, 3);
    let single = seq![compose];
    assert(names.push(compose) =~= names + single);
    Seq::filter_distributes_over_add(names, single, candidate_pred());
    assert(single.drop_last() =~= Seq::<Seq<char>>::empty());
    assert(single.drop_last().filter(candidate_pred()) =~= Seq::<Seq<char>>::empty());
    assert(candidate_pred()(single.last()) == spec_is_candidate(compose));
    assert(single.filter(candidate_pred()) =~= Seq::<Seq<char>>::empty());
    assert(names.filter(candidate_pred()) + single.filter(candidate_pred()) =~= names.filter(
        candidate_pred(),
    ));
}

/// Law: a directory holding a generated orchestration manifest beside one
/// real config still resolves to the real config.
pub proof fn lemma_compose_beside_single_config(
    target: Seq<char>,
    names: Seq<Seq<char>>,
    compose: Seq<char>,
)
    requires
        compose == "docker-compose.yml"@ || compose == "docker-compose.yaml"@,
        spec_candidates(names).len() == 1,
    ensures
        spec_resolve_dir(target, names.push(compose)) == Resolution::Chosen(
            spec_join_path(target, spec_candidates(names)[0]),
        ),
{
    lemma_compose_ignored(target, names, compose);
    lemma_single_candidate_resolves(target, names);
}

/// Law: two candidates, neither carrying a preferred name, are ambiguous,
/// and the diagnostic lists both names comma-joined in lexicographic order.
pub proof fn lemma_two_candidates_ambiguous(target: Seq<char>, names: Seq<Seq<char>>)
    requires
        spec_candidates(names).len() == 2,
        spec_candidates(names)[0] != "shenron.yml"@,
        spec_candidates(names)[0] != "shenron.yaml"@,
        spec_candidates(names)[1] != "shenron.yml"@,
        spec_candidates(names)[1] != "shenron.yaml"@,
    ensures
        spec_resolve_dir(target, names) == Resolution::Ambiguous(
            if lex_le(spec_candidates(names)[0], spec_candidates(names)[1]) {
                spec_candidates(names)[0] + ", "@ + spec_candidates(names)[1]
            } else {
                spec_candidates(names)[1] + ", "@ + spec_candidates(names)[0]
            },
        ),
{
    broadcast use vstd::seq_lib::group_to_multiset_ensures;

    let leq = lex_leq();
    let cands = spec_candidates(names);
    let a = cands[0];
    let b = cands[1];
    let sorted = cands.sort_by(leq);
    lemma_lex_leq_total_ordering();
    cands.lemma_sort_by_ensures(leq);
    assert(cands.to_multiset() == sorted.to_multiset());
    assert(cands.to_multiset().len() == cands.len());
    assert(sorted.to_multiset().len() == sorted.len());
    assert(sorted.len() == 2);
    let expect = if lex_le(a, b) {
        seq![a, b]
    } else {
        seq![b, a]
    };
    lemma_lex_le_connected(a, b);
    assert(sorted_by(expect, leq));
    assert(cands =~= seq![a] + seq![b]);
    vstd::seq_lib::lemma_multiset_commutative(seq![a], seq![b]);
    assert(seq![a].to_multiset() =~= Multiset::<Seq<char>>::empty().insert(a));
    assert(seq![b].to_multiset() =~= Multiset::<Seq<char>>::empty().insert(b));
    if !lex_le(a, b) {
        assert(expect =~= seq![b] + seq![a]);
        vstd::seq_lib::lemma_multiset_commutative(seq![b], seq![a]);
        assert(expect.to_multiset() =~= cands.to_multiset());
    } else {
        assert(expect =~= cands);
    }
    lemma_sorted_unique(sorted, expect, leq);
    assert(sorted =~= expect);
    // neither element carries a preferred name
    assert forall|n: Seq<char>| sorted.contains(n) implies n == a || n == b by {
        let k = choose|k: int| 0 <= k < sorted.len() && sorted[k] == n;
    }
    assert(!sorted.contains("shenron.yml"@));
    assert(!sorted.contains("shenron.yaml"@));
    assert(spec_join_with(sorted.drop_first(), ", "@) == sorted[1]);
    assert(spec_join_with(sorted, ", "@) == sorted[0] + ", "@ + sorted[1]);
}

/// Law: among several candidates, one named `shenron.yml` wins.
pub proof fn lemma_shenron_preferred(target: Seq<char>, names: Seq<Seq<char>>)
    requires
        spec_candidates(names).len() >= 2,
        spec_candidates(names).contains("shenron.yml"@),
    ensures
        spec_resolve_dir(target, names) == Resolution::Chosen(
            spec_join_path(target, "shenron.yml"@),
        ),
{
    broadcast use vstd::seq_lib::group_to_multiset_ensures;

    let leq = lex_leq();
    let cands = spec_candidates(names);
    let sorted = cands.sort_by(leq);
    lemma_lex_leq_total_ordering();
    cands.lemma_sort_by_ensures(leq);
    assert(cands.to_multiset() == sorted.to_multiset());
    assert(cands.to_multiset().len() == cands.len());
    assert(sorted.to_multiset().len() == sorted.len());
    assert(sorted.len() == cands.len());
    assert(cands.to_multiset().contains("shenron.yml"@));
    assert(sorted.contains("shenron.yml"@));
}

} // verus!
