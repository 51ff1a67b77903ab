use crate::text::{
    lemma_lex_irreflexive, lemma_lex_total, lemma_lex_transitive, lex_less, pieces, split_on,
    split_once, split_once_str, text_less, trim, trim_of, views,
};
use vstd::prelude::*;

verus! {

/// One model that a provider offers.
pub struct OpenCodeProviderModel {
    pub id: String,
    pub name: String,
}

/// A provider and its models.
pub struct OpenCodeProviderInfo {
    pub id: String,
    pub name: String,
    pub models: Vec<OpenCodeProviderModel>,
}

/// The `(provider, model)` pairs of a model listing: each line, trimmed,
/// cut at its first `/`; lines without one are left out.
pub open spec fn listing_pairs(lines: Seq<Seq<char>>) -> Seq<(Seq<char>, Seq<char>)>
    decreases lines.len(),
{
    if lines.len() == 0 {
        Seq::empty()
    } else {
        let rest = listing_pairs(lines.drop_last());
        match split_once(trim_of(lines.last()), '/') {
            Some(p) => rest.push(p),
            None => rest,
        }
    }
}

/// The models listed for provider `p`, in the order of the listing.
pub open spec fn models_of(pairs: Seq<(Seq<char>, Seq<char>)>, p: Seq<char>) -> Seq<Seq<char>>
    decreases pairs.len(),
{
    if pairs.len() == 0 {
        Seq::empty()
    } else {
        let r = models_of(pairs.drop_last(), p);
        if pairs.last().0 == p {
            r.push(pairs.last().1)
        } else {
            r
        }
    }
}

/// Whether provider `p` occurs in the listing.
pub open spec fn lists_provider(pairs: Seq<(Seq<char>, Seq<char>)>, p: Seq<char>) -> bool {
    exists|i: int| 0 <= i < pairs.len() && #[trigger] pairs[i].0 == p
}

/// The identifiers of a run of models.
pub open spec fn model_ids(ms: Seq<OpenCodeProviderModel>) -> Seq<Seq<char>> {
    ms.map_values(|m: OpenCodeProviderModel| m.id@)
}

/// `r` is the listing grouped by provider: one entry per provider that
/// occurs, sorted by identifier, each with its models in listing order, and
/// every name equal to its identifier.
pub open spec fn grouped_as(r: Seq<OpenCodeProviderInfo>, pairs: Seq<(Seq<char>, Seq<char>)>) -> bool {
    &&& forall|i: int, j: int| 0 <= i < j < r.len() ==> lex_less(#[trigger] r[i].id@, #[trigger] r[j].id@)
    &&& forall|i: int| 0 <= i < r.len() ==> {
        &&& (#[trigger] r[i]).name@ == r[i].id@
        &&& model_ids(r[i].models@) == models_of(pairs, r[i].id@)
        &&& forall|k: int| 0 <= k < r[i].models@.len() ==> (#[trigger] r[i].models@[k]).name@ == r[i].models@[k].id@
    }
    &&& forall|p: Seq<char>| lists_provider(pairs, p) <==> exists|i: int| 0 <= i < r.len() && #[trigger] r[i].id@ == p
}

/// The pairs as values.
pub open spec fn pairs_view(v: Seq<(String, String)>) -> Seq<(Seq<char>, Seq<char>)> {
    v.map_values(|e: (String, String)| (e.0@, e.1@))
}

proof fn lemma_models_absent(pairs: Seq<(Seq<char>, Seq<char>)>, p: Seq<char>)
    requires
        !lists_provider(pairs, p),
    ensures
        models_of(pairs, p) == Seq::<Seq<char>>::empty(),
    decreases pairs.len(),
{
    if pairs.len() > 0 {
        let q = pairs.drop_last();
        assert(!lists_provider(q, p)) by {
            if lists_provider(q, p) {
                let i = choose|i: int| 0 <= i < q.len() && #[trigger] q[i].0 == p;
                assert(pairs[i].0 == p);
            }
        }
        assert(pairs[pairs.len() - 1].0 != p);
        lemma_models_absent(q, p);
    }
}

proof fn lemma_pairs_push(pairs: Seq<(Seq<char>, Seq<char>)>, x: (Seq<char>, Seq<char>))
    ensures
        forall|p: Seq<char>| #[trigger]
            models_of(pairs.push(x), p) == if x.0 == p {
                models_of(pairs, p).push(x.1)
            } else {
                models_of(pairs, p)
            },
        forall|p: Seq<char>| #[trigger]
            lists_provider(pairs.push(x), p) <==> (lists_provider(pairs, p) || x.0 == p),
{
    assert(pairs.push(x).drop_last() =~= pairs);
    assert forall|p: Seq<char>| #[trigger]
        lists_provider(pairs.push(x), p) <==> (lists_provider(pairs, p) || x.0 == p) by {
        let q = pairs.push(x);
        if lists_provider(pairs, p) {
            let i = choose|i: int| 0 <= i < pairs.len() && #[trigger] pairs[i].0 == p;
            assert(q[i].0 == p);
        }
        if x.0 == p {
            assert(q[pairs.len() as int].0 == p);
        }
        if lists_provider(q, p) && x.0 != p {
            let i = choose|i: int| 0 <= i < q.len() && #[trigger] q[i].0 == p;
            assert(pairs[i].0 == p);
        }
    }
}

/// Groups `(provider, model)` pairs by provider, providers sorted by
/// identifier and models kept in the order given.
pub fn group_models(pairs: &Vec<(String, String)>) -> (r: Vec<OpenCodeProviderInfo>)
    ensures
        grouped_as(r@, pairs_view(pairs@)),
{
    let ghost pv = pairs_view(pairs@);
    let mut r: Vec<OpenCodeProviderInfo> = Vec::new();
    let mut t: usize = 0;
    assert(pv.subrange(0, 0) =~= Seq::<(Seq<char>, Seq<char>)>::empty());
    while t < pairs.len()
        invariant
            t <= pairs@.len(),
            pv == pairs_view(pairs@),
            grouped_as(r@, pv.subrange(0, t as int)),
        decreases pairs.len() - t,
    {
        let ghost before = pv.subrange(0, t as int);
        let ghost after = pv.subrange(0, t + 1);
        assert(after =~= before.push(pv[t as int]));
        proof {
            lemma_pairs_push(before, pv[t as int]);
        }
        let p = &pairs[t].0;
        let m = &pairs[t].1;
        assert(pv[t as int] == (p@, m@));
        let mut i: usize = 0;
        while i < r.len() && text_less(r[i].id.as_str(), p.as_str())
            invariant
                i <= r@.len(),
                forall|j: int| 0 <= j < i ==> lex_less(#[trigger] r@[j].id@, p@),
            decreases r.len() - i,
        {
            i = i + 1;
        }
        let ghost old_r = r@;
        if i < r.len() && r[i].id == *p {
            let mut e = r.remove(i);
            e.models.push(OpenCodeProviderModel { id: m.clone(), name: m.clone() });
            r.insert(i, e);
            assert(r@ =~= old_r.update(i as int, e));
            assert(model_ids(e.models@) =~= model_ids(old_r[i as int].models@).push(m@));
            assert forall|j: int| 0 <= j < r@.len() && j != i implies #[trigger] r@[j].id@ != p@ by {
                if j < i {
                    assert(lex_less(old_r[j].id@, old_r[i as int].id@));
                } else {
                    assert(lex_less(old_r[i as int].id@, old_r[j].id@));
                }
                lemma_lex_irreflexive(p@);
            }
            assert(r@[i as int].id@ == p@);
            assert forall|j: int| 0 <= j < r@.len() implies {
                &&& (#[trigger] r@[j]).name@ == r@[j].id@
                &&& model_ids(r@[j].models@) == models_of(after, r@[j].id@)
                &&& forall|k: int| 0 <= k < r@[j].models@.len() ==> (#[trigger] r@[j].models@[k]).name@ == r@[j].models@[k].id@
            } by {
                if j != i {
                    assert(r@[j] == old_r[j]);
                } else {
                    assert forall|k: int| 0 <= k < r@[j].models@.len() implies (#[trigger] r@[j].models@[k]).name@ == r@[j].models@[k].id@ by {
                        if k < old_r[j].models@.len() {
                            assert(r@[j].models@[k] == old_r[j].models@[k]);
                        }
                    }
                }
            }
            assert forall|a: int, b: int| 0 <= a < b < r@.len() implies lex_less(
                #[trigger] r@[a].id@,
                #[trigger] r@[b].id@,
            ) by {
                assert(r@[a].id@ == old_r[a].id@);
                assert(r@[b].id@ == old_r[b].id@);
            }
            assert forall|q: Seq<char>| lists_provider(after, q) <==> exists|j: int|
                0 <= j < r@.len() && #[trigger] r@[j].id@ == q by {
                if exists|j: int| 0 <= j < old_r.len() && #[trigger] old_r[j].id@ == q {
                    let j = choose|j: int| 0 <= j < old_r.len() && #[trigger] old_r[j].id@ == q;
                    assert(r@[j].id@ == q);
                }
                if exists|j: int| 0 <= j < r@.len() && #[trigger] r@[j].id@ == q {
                    let j = choose|j: int| 0 <= j < r@.len() && #[trigger] r@[j].id@ == q;
                    assert(old_r[j].id@ == q);
                }
            }
        } else {
            let ghost pid = p@;
            proof {
                lemma_lex_irreflexive(pid);
                if i < old_r.len() {
                    lemma_lex_total(old_r[i as int].id@, pid);
                }
                assert forall|j: int| i <= j < old_r.len() implies lex_less(pid, #[trigger] old_r[j].id@) by {
                    if j > i {
                        lemma_lex_transitive(pid, old_r[i as int].id@, old_r[j].id@);
                    }
                }
                assert(!lists_provider(before, pid)) by {
                    if lists_provider(before, pid) {
                        let j = choose|j: int| 0 <= j < old_r.len() && #[trigger] old_r[j].id@ == pid;
                        if j < i {
                            assert(lex_less(old_r[j].id@, pid));
                        } else {
                            assert(lex_less(pid, old_r[j].id@));
                        }
                    }
                }
                lemma_models_absent(before, pid);
            }
            let mut models: Vec<OpenCodeProviderModel> = Vec::new();
            models.push(OpenCodeProviderModel { id: m.clone(), name: m.clone() });
            let e = OpenCodeProviderInfo { id: p.clone(), name: p.clone(), models };
            r.insert(i, e);
            assert(model_ids(e.models@) =~= seq![m@]);
            assert(models_of(after, pid) =~= seq![m@]);
            assert forall|j: int| 0 <= j < r@.len() && j != i implies #[trigger] r@[j].id@ != pid by {
                if j < i {
                    assert(r@[j] == old_r[j]);
                } else {
                    assert(r@[j] == old_r[j - 1]);
                }
            }
            assert forall|a: int, b: int| 0 <= a < b < r@.len() implies lex_less(
                #[trigger] r@[a].id@,
                #[trigger] r@[b].id@,
            ) by {
                if b < i {
                } else if a < i && b == i {
                } else if a < i {
                    lemma_lex_transitive(r@[a].id@, pid, r@[b].id@);
                } else if a == i {
                } else {
                    assert(r@[a] == old_r[a - 1]);
                    assert(r@[b] == old_r[b - 1]);
                }
            }
            assert forall|q: Seq<char>| lists_provider(after, q) <==> exists|j: int|
                0 <= j < r@.len() && #[trigger] r@[j].id@ == q by {
                if lists_provider(before, q) {
                    let j = choose|j: int| 0 <= j < old_r.len() && #[trigger] old_r[j].id@ == q;
                    if j < i {
                        assert(r@[j].id@ == q);
                    } else {
                        assert(r@[j + 1].id@ == q);
                    }
                }
                if q == pid {
                    assert(r@[i as int].id@ == q);
                }
                if exists|j: int| 0 <= j < r@.len() && #[trigger] r@[j].id@ == q {
                    let j = choose|j: int| 0 <= j < r@.len() && #[trigger] r@[j].id@ == q;
                    if j < i {
                        assert(old_r[j].id@ == q);
                    } else if j > i {
                        assert(old_r[j - 1].id@ == q);
                    }
                }
            }
            assert forall|j: int| 0 <= j < r@.len() implies {
                &&& (#[trigger] r@[j]).name@ == r@[j].id@
                &&& model_ids(r@[j].models@) == models_of(after, r@[j].id@)
                &&& forall|k: int| 0 <= k < r@[j].models@.len() ==> (#[trigger] r@[j].models@[k]).name@ == r@[j].models@[k].id@
            } by {
                if j < i {
                    assert(r@[j] == old_r[j]);
                } else if j > i {
                    assert(r@[j] == old_r[j - 1]);
                }
            }
        }
        t = t + 1;
    }
    assert(pv.subrange(0, pairs@.len() as int) =~= pv);
    r
}

} // verus!

verus! {

/// The `(provider, model)` pairs of already split lines.
pub fn listing_pairs_of(lines: &Vec<String>) -> (r: Vec<(String, String)>)
    ensures
        pairs_view(r@) == listing_pairs(views(lines@)),
{
    let ghost lv = views(lines@);
    let mut r: Vec<(String, String)> = Vec::new();
    let mut i: usize = 0;
    assert(lv.subrange(0, 0) =~= Seq::<Seq<char>>::empty());
    assert(pairs_view(r@) =~= Seq::<(Seq<char>, Seq<char>)>::empty());
    while i < lines.len()
        invariant
            i <= lines@.len(),
            lv == views(lines@),
            pairs_view(r@) == listing_pairs(lv.subrange(0, i as int)),
        decreases lines.len() - i,
    {
        assert(lv.subrange(0, i + 1).drop_last() =~= lv.subrange(0, i as int));
        assert(lv.subrange(0, i + 1).last() == lines@[i as int]@);
        let ghost old_r = pairs_view(r@);
        let t = trim(lines[i].as_str());
        match split_once_str(t, '/') {
            Some(pair) => {
                r.push(pair);
                assert(pairs_view(r@) =~= old_r.push((pair.0@, pair.1@)));
            },
            None => {},
        }
        i = i + 1;
    }
    assert(lv.subrange(0, lines@.len() as int) =~= lv);
    r
}

/// The providers of a model listing, one `provider/model` per line: grouped
/// by provider, sorted by provider, each model named by its identifier.
pub fn providers_from_listing(text: &str) -> (r: Vec<OpenCodeProviderInfo>)
    ensures
        grouped_as(r@, listing_pairs(pieces(text@, '\n'))),
{
    let lines = split_on(text, '\n');
    let pairs = listing_pairs_of(&lines);
    group_models(&pairs)
}

/// The model selector sent with a prompt: `provider/model` when both are
/// given.
pub fn model_selector(provider: Option<String>, model: Option<String>) -> (r: Option<String>)
    ensures
        match (provider, model) {
            (Some(p), Some(m)) => r is Some && r->0@ == p@ + "/"@ + m@,
            _ => r is None,
        },
{
    match (provider, model) {
        (Some(p), Some(m)) => {
            let mut s = p;
            s.append("/");
            s.append(m.as_str());
            Some(s)
        },
        _ => None,
    }
}

} // verus!
