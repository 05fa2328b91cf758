//! Bringing in the ancestors of an event in an order in which every event comes
//! after its parents.

use crate::event::Event;
use crate::federation::policy::FederationError;
use crate::text;
use vstd::prelude::*;

verus! {

/// The ids that are asked for but not yet held, in the order asked for.
pub open spec fn missing(held: Seq<Seq<char>>, wanted: Seq<Seq<char>>) -> Seq<Seq<char>>
    decreases wanted.len(),
{
    if wanted.len() == 0 {
        Seq::empty()
    } else if held.contains(wanted.last()) {
        missing(held, wanted.drop_last())
    } else {
        missing(held, wanted.drop_last()).push(wanted.last())
    }
}

/// The parents that the local log lacks.
pub fn missing_parents(held: &[String], wanted: &[String]) -> (r: Vec<String>)
    ensures
        text::views(r@) == missing(text::views(held@), text::views(wanted@)),
{
    let mut out: Vec<String> = Vec::new();
    let ghost h = text::views(held@);
    let ghost w = text::views(wanted@);
    let mut i: usize = 0;
    assert(text::views(out@) =~= missing(h, w.take(0)));
    while i < wanted.len()
        invariant
            i <= wanted@.len(),
            h == text::views(held@),
            w == text::views(wanted@),
            text::views(out@) == missing(h, w.take(i as int)),
        decreases wanted.len() - i,
    {
        proof {
            let t = w.take(i + 1);
            assert(t.drop_last() =~= w.take(i as int));
            assert(t.last() == wanted@[i as int]@);
        }
        let ghost before = out@;
        if !text::among(held, &wanted[i]) {
            out.push(wanted[i].clone());
            assert(text::views(out@) =~= text::views(before).push(wanted@[i as int]@));
        }
        i += 1;
    }
    assert(w.take(w.len() as int) =~= w);
    out
}

/// An event has all its parents among the ids.
pub open spec fn ready(e: Event, ids: Set<Seq<char>>) -> bool {
    forall|i: int| 0 <= i < e.parents@.len() ==> ids.contains((#[trigger] e.parents@[i])@)
}

/// The ids of events.
pub open spec fn ids_of(s: Seq<Event>) -> Set<Seq<char>> {
    Set::new(|k: Seq<char>| exists|i: int| 0 <= i < s.len() && (#[trigger] s[i]).id@ == k)
}

/// Every event comes after its parents, given the ids that are held already.
pub open spec fn parents_first(held: Set<Seq<char>>, s: Seq<Event>) -> bool {
    forall|i: int| 0 <= i < s.len() ==> ready(#[trigger] s[i], held.union(ids_of(s.take(i))))
}

/// The order in which fetched events are taken in.
#[derive(Debug)]
pub struct BackfillPlan {
    /// The events to take in, in this order.
    pub apply: Vec<Event>,
    /// The events that cannot be taken in, because an ancestor is missing.
    pub stalled: Vec<Event>,
}

fn is_ready(e: &Event, held: &[String], applied: &Vec<Event>) -> (r: bool)
    ensures
        r == ready(*e, text::views(held@).to_set().union(ids_of(applied@))),
{
    let ghost ids = text::views(held@).to_set().union(ids_of(applied@));
    let mut i: usize = 0;
    while i < e.parents.len()
        invariant
            i <= e.parents@.len(),
            ids == text::views(held@).to_set().union(ids_of(applied@)),
            forall|j: int| 0 <= j < i ==> ids.contains((#[trigger] e.parents@[j])@),
        decreases e.parents.len() - i,
    {
        let mut found = text::among(held, &e.parents[i]);
        let mut k: usize = 0;
        while k < applied.len() && !found
            invariant
                k <= applied@.len(),
                i < e.parents@.len(),
                ids == text::views(held@).to_set().union(ids_of(applied@)),
                found ==> ids.contains(e.parents@[i as int]@),
                !found ==> !text::views(held@).contains(e.parents@[i as int]@) && forall|j: int|
                    0 <= j < k ==> (#[trigger] applied@[j]).id@ != e.parents@[i as int]@,
            decreases applied.len() - k + (if found {
                0int
            } else {
                1int
            }),
        {
            if text::same(&applied[k].id, &e.parents[i]) {
                assert(ids_of(applied@).contains(e.parents@[i as int]@));
                found = true;
            } else {
                k += 1;
            }
        }
        if !found {
            assert(!ids_of(applied@).contains(e.parents@[i as int]@));
            assert(!ids.contains(e.parents@[i as int]@));
            return false;
        }
        i += 1;
    }
    true
}

/// Orders fetched events so that every one comes after its parents. Rounds are made
/// over the events that are left, in their order, until a round takes in none: what
/// is left then waits for an ancestor that was not fetched.
pub fn plan_backfill(held: &[String], fetched: Vec<Event>) -> (r: BackfillPlan)
    ensures
        parents_first(text::views(held@).to_set(), r.apply@),
        forall|i: int|
            0 <= i < r.stalled@.len() ==> !ready(
                #[trigger] r.stalled@[i],
                text::views(held@).to_set().union(ids_of(r.apply@)),
            ),
        r.apply@.to_multiset().add(r.stalled@.to_multiset()) == fetched@.to_multiset(),
{
    broadcast use vstd::seq_lib::group_to_multiset_ensures;

    let ghost all = fetched@.to_multiset();
    let ghost have = text::views(held@).to_set();
    let mut apply: Vec<Event> = Vec::new();
    let mut pending: Vec<Event> = fetched;
    assert(apply@.to_multiset().add(pending@.to_multiset()) =~= all);
    loop
        invariant
            have == text::views(held@).to_set(),
            parents_first(have, apply@),
            apply@.to_multiset().add(pending@.to_multiset()) == all,
        ensures
            parents_first(have, apply@),
            apply@.to_multiset().add(pending@.to_multiset()) == all,
            forall|i: int|
                0 <= i < pending@.len() ==> !ready(
                    #[trigger] pending@[i],
                    have.union(ids_of(apply@)),
                ),
        decreases pending.len(),
    {
        let before_len: usize = pending.len();
        let (next_apply, next_pending) = backfill_round(held, apply, pending);
        apply = next_apply;
        pending = next_pending;
        if pending.len() == before_len {
            break ;
        }
    }
    BackfillPlan { apply, stalled: pending }
}

proof fn lemma_extend(have: Set<Seq<char>>, apply: Seq<Event>, e: Event)
    requires
        parents_first(have, apply),
        ready(e, have.union(ids_of(apply))),
    ensures
        parents_first(have, apply.push(e)),
{
    let next = apply.push(e);
    assert forall|i: int| 0 <= i < next.len() implies ready(
        #[trigger] next[i],
        have.union(ids_of(next.take(i))),
    ) by {
        if i < apply.len() {
            assert(next.take(i) =~= apply.take(i));
            assert(ready(apply[i], have.union(ids_of(apply.take(i)))));
        } else {
            assert(next.take(i) =~= apply);
        }
    }
}

/// One round over the events that are left.
fn backfill_round(held: &[String], applied: Vec<Event>, pending: Vec<Event>) -> (r: (
    Vec<Event>,
    Vec<Event>,
))
    requires
        parents_first(text::views(held@).to_set(), applied@),
    ensures
        parents_first(text::views(held@).to_set(), r.0@),
        r.0@.to_multiset().add(r.1@.to_multiset()) == applied@.to_multiset().add(
            pending@.to_multiset(),
        ),
        r.1@.len() <= pending@.len(),
        r.1@.len() == pending@.len() ==> r.0@ == applied@ && forall|i: int|
            0 <= i < r.1@.len() ==> !ready(
                #[trigger] r.1@[i],
                text::views(held@).to_set().union(ids_of(r.0@)),
            ),
{
    broadcast use vstd::seq_lib::group_to_multiset_ensures;

    let ghost have = text::views(held@).to_set();
    let ghost start = applied@;
    let ghost all = pending@;
    let mut apply = applied;
    let mut queue = pending;
    let mut left: Vec<Event> = Vec::new();
    assert(apply@.to_multiset().add(left@.to_multiset()).add(queue@.to_multiset())
        =~= start.to_multiset().add(all.to_multiset()));
    while queue.len() > 0
        invariant
            have == text::views(held@).to_set(),
            parents_first(have, apply@),
            apply@.to_multiset().add(left@.to_multiset()).add(queue@.to_multiset())
                == start.to_multiset().add(all.to_multiset()),
            left@.len() + queue@.len() <= all.len(),
            left@.len() + queue@.len() == all.len() ==> apply@ == start && forall|i: int|
                0 <= i < left@.len() ==> !ready(
                    #[trigger] left@[i],
                    have.union(ids_of(apply@)),
                ),
        decreases queue.len(),
    {
        broadcast use vstd::seq_lib::group_to_multiset_ensures;

        let ghost q0 = queue@;
        let ghost a0 = apply@;
        let ghost l0 = left@;
        let e = queue.remove(0);
        proof {
            assert(q0 =~= seq![e] + queue@);
            vstd::seq_lib::lemma_multiset_commutative(seq![e], queue@);
            assert(seq![e] =~= Seq::<Event>::empty().push(e));
            assert(q0.to_multiset() =~= queue@.to_multiset().insert(e));
        }
        if is_ready(&e, held, &apply) {
            proof {
                lemma_extend(have, apply@, e);
            }
            apply.push(e);
            assert(apply@.to_multiset() =~= a0.to_multiset().insert(e));
        } else {
            left.push(e);
            assert(left@.to_multiset() =~= l0.to_multiset().insert(e));
        }
        assert(apply@.to_multiset().add(left@.to_multiset()).add(queue@.to_multiset())
            =~= a0.to_multiset().add(l0.to_multiset()).add(q0.to_multiset()));
    }
    assert(queue@ =~= Seq::<Event>::empty());
    assert(apply@.to_multiset().add(left@.to_multiset()) =~= start.to_multiset().add(
        all.to_multiset(),
    ));
    (apply, left)
}

/// The event waits for this parent, which is neither held nor among the fetched events.
pub open spec fn lacks(held: Set<Seq<char>>, plan: BackfillPlan, id: Seq<char>) -> bool {
    &&& exists|i: int, j: int|
        0 <= i < plan.stalled@.len() && 0 <= j < plan.stalled@[i].parents@.len() && (
        #[trigger] plan.stalled@[i].parents@[j])@ == id
    &&& !held.contains(id)
    &&& !ids_of(plan.apply@).contains(id)
    &&& !ids_of(plan.stalled@).contains(id)
}

fn has_id(events: &Vec<Event>, id: &str) -> (r: bool)
    ensures
        r == ids_of(events@).contains(id@),
{
    let mut i: usize = 0;
    while i < events.len()
        invariant
            i <= events@.len(),
            forall|k: int| 0 <= k < i ==> (#[trigger] events@[k]).id@ != id@,
        decreases events.len() - i,
    {
        if text::same(&events[i].id, id) {
            return true;
        }
        i += 1;
    }
    false
}

/// The ids to fetch next: the parents of stalled events that are neither held nor fetched,
/// each once. Where there are none, the chain is closed.
pub fn next_missing(held: &[String], plan: &BackfillPlan) -> (r: Vec<String>)
    ensures
        text::views(r@).no_duplicates(),
        forall|id: Seq<char>| #[trigger]
            text::views(r@).contains(id) <==> lacks(text::views(held@).to_set(), *plan, id),
{
    let mut out: Vec<String> = Vec::new();
    let ghost have = text::views(held@).to_set();
    let mut i: usize = 0;
    while i < plan.stalled.len()
        invariant
            i <= plan.stalled@.len(),
            have == text::views(held@).to_set(),
            text::views(out@).no_duplicates(),
            forall|id: Seq<char>| #[trigger]
                text::views(out@).contains(id) ==> lacks(have, *plan, id),
            forall|k: int, j: int|
                0 <= k < i && 0 <= j < plan.stalled@[k].parents@.len() && lacks(
                    have,
                    *plan,
                    (#[trigger] plan.stalled@[k].parents@[j])@,
                ) ==> text::views(out@).contains(plan.stalled@[k].parents@[j]@),
        decreases plan.stalled.len() - i,
    {
        let e = &plan.stalled[i];
        let mut j: usize = 0;
        while j < e.parents.len()
            invariant
                i < plan.stalled@.len(),
                *e == plan.stalled@[i as int],
                j <= e.parents@.len(),
                have == text::views(held@).to_set(),
                text::views(out@).no_duplicates(),
                forall|id: Seq<char>| #[trigger]
                    text::views(out@).contains(id) ==> lacks(have, *plan, id),
                forall|k: int, l: int|
                    0 <= k < i && 0 <= l < plan.stalled@[k].parents@.len() && lacks(
                        have,
                        *plan,
                        (#[trigger] plan.stalled@[k].parents@[l])@,
                    ) ==> text::views(out@).contains(plan.stalled@[k].parents@[l]@),
                forall|l: int|
                    0 <= l < j && lacks(have, *plan, (#[trigger] e.parents@[l])@) ==> text::views(
                        out@,
                    ).contains(e.parents@[l]@),
            decreases e.parents.len() - j,
        {
            let id = &e.parents[j];
            let ghost before = text::views(out@);
            assert(plan.stalled@[i as int].parents@[j as int]@ == id@);
            if !text::among(held, id) && !has_id(&plan.apply, id) && !has_id(&plan.stalled, id)
                && !text::among(out.as_slice(), id) {
                assert(lacks(have, *plan, id@));
                out.push(id.clone());
                proof {
                    let after = text::views(out@);
                    assert(after =~= before.push(id@));
                    assert(after[before.len() as int] == id@);
                    assert forall|k: Seq<char>| #[trigger] after.contains(k) implies lacks(
                        have,
                        *plan,
                        k,
                    ) by {
                        let m = choose|m: int| 0 <= m < after.len() && after[m] == k;
                        if m < before.len() {
                            assert(before[m] == k);
                            assert(before.contains(k));
                        }
                    }
                    assert forall|k: Seq<char>| #[trigger] before.contains(k) implies after.contains(
                        k,
                    ) by {
                        let m = choose|m: int| 0 <= m < before.len() && before[m] == k;
                        assert(after[m] == k);
                    }
                    assert(after.contains(id@));
                }
            }
            j += 1;
        }
        i += 1;
    }
    out
}

/// What a backfill fetches next: the ids that the chain still lacks. It is over where the chain
/// is closed, and where the last fetch brought nothing new: `grew` tells whether it did.
pub fn next_fetch(held: &[String], plan: &BackfillPlan, grew: bool) -> (r: Option<Vec<String>>)
    ensures
        match r {
            Some(ids) => {
                &&& grew
                &&& ids@.len() > 0
                &&& text::views(ids@).no_duplicates()
                &&& forall|id: Seq<char>| #[trigger]
                    text::views(ids@).contains(id) <==> lacks(
                        text::views(held@).to_set(),
                        *plan,
                        id,
                    )
            },
            None => !grew || forall|id: Seq<char>| !#[trigger]
                lacks(text::views(held@).to_set(), *plan, id),
        },
{
    if !grew {
        return None;
    }
    let ids = next_missing(held, plan);
    if ids.len() == 0 {
        proof {
            assert forall|id: Seq<char>| !#[trigger]
                lacks(text::views(held@).to_set(), *plan, id) by {
                assert(!text::views(ids@).contains(id));
            }
        }
        None
    } else {
        Some(ids)
    }
}

/// Once nothing more is to be fetched, an event stays behind only where its own ancestors
/// wait for each other: a backfill goes on until the chain is closed.
pub proof fn law_only_cycles_stay_behind(held: Set<Seq<char>>, plan: BackfillPlan, i: int)
    requires
        forall|id: Seq<char>| !#[trigger] lacks(held, plan, id),
        0 <= i < plan.stalled@.len(),
        !ready(plan.stalled@[i], held.union(ids_of(plan.apply@))),
    ensures
        exists|j: int|
            0 <= j < plan.stalled@[i].parents@.len() && ids_of(plan.stalled@).contains(
                (#[trigger] plan.stalled@[i].parents@[j])@,
            ),
{
    let e = plan.stalled@[i];
    let j = choose|j: int|
        0 <= j < e.parents@.len() && !held.union(ids_of(plan.apply@)).contains(
            (#[trigger] e.parents@[j])@,
        );
    assert(!lacks(held, plan, e.parents@[j]@));
    assert(ids_of(plan.stalled@).contains(plan.stalled@[i].parents@[j]@));
}

/// The error of a backfill that leaves events behind.
pub fn stall_error(stalled: usize) -> (r: FederationError)
    ensures
        r matches FederationError::Io(m) && m@ == "backfill stalled with "@ + text::digits(
            stalled as nat,
        ) + " events still pending; remote may be missing ancestors"@,
{
    FederationError::Io(
        String::from_str("backfill stalled with ").concat(
            &text::unsigned_text(stalled as u64),
        ).concat(" events still pending; remote may be missing ancestors"),
    )
}

/// What is asked of a peer: exactly the wanted ids that are not held, in the order in which
/// they are wanted.
pub proof fn law_only_the_missing_is_asked_for(
    held: &[String],
    wanted: &[String],
    r: Vec<String>,
    id: Seq<char>,
)
    requires
        call_ensures(missing_parents, (held, wanted), r),
    ensures
        text::views(r@).contains(id) <==> text::views(wanted@).contains(id) && !text::views(
            held@,
        ).contains(id),
        (forall|i: int|
            0 <= i < wanted@.len() ==> !text::views(held@).contains(#[trigger] wanted@[i]@))
            ==> text::views(r@) == text::views(wanted@),
{
    lemma_missing(text::views(held@), text::views(wanted@), id);
    if forall|i: int|
        0 <= i < wanted@.len() ==> !text::views(held@).contains(#[trigger] wanted@[i]@) {
        let w = text::views(wanted@);
        assert forall|i: int| 0 <= i < w.len() implies !text::views(held@).contains(
            #[trigger] w[i],
        ) by {
            assert(w[i] == wanted@[i]@);
        }
        lemma_all_missing(text::views(held@), w);
    }
}

proof fn lemma_missing(held: Seq<Seq<char>>, wanted: Seq<Seq<char>>, id: Seq<char>)
    ensures
        missing(held, wanted).contains(id) <==> wanted.contains(id) && !held.contains(id),
    decreases wanted.len(),
{
    if wanted.len() > 0 {
        let init = wanted.drop_last();
        let last = wanted.last();
        let rest = missing(held, init);
        lemma_missing(held, init, id);
        assert(wanted[wanted.len() - 1] == last);
        if init.contains(id) {
            let i = choose|i: int| 0 <= i < init.len() && init[i] == id;
            assert(wanted[i] == id);
        }
        if wanted.contains(id) && last != id {
            let i = choose|i: int| 0 <= i < wanted.len() && wanted[i] == id;
            assert(init[i] == id);
        }
        if !held.contains(last) {
            let all = rest.push(last);
            assert(all[rest.len() as int] == last);
            if rest.contains(id) {
                let i = choose|i: int| 0 <= i < rest.len() && rest[i] == id;
                assert(all[i] == id);
            }
            if all.contains(id) && last != id {
                let i = choose|i: int| 0 <= i < all.len() && all[i] == id;
                assert(rest[i] == id);
            }
        }
    }
}

proof fn lemma_all_missing(held: Seq<Seq<char>>, wanted: Seq<Seq<char>>)
    requires
        forall|i: int| 0 <= i < wanted.len() ==> !held.contains(#[trigger] wanted[i]),
    ensures
        missing(held, wanted) == wanted,
    decreases wanted.len(),
{
    if wanted.len() > 0 {
        assert(!held.contains(wanted[wanted.len() - 1]));
        assert forall|i: int| 0 <= i < wanted.drop_last().len() implies !held.contains(
            #[trigger] wanted.drop_last()[i],
        ) by {
            assert(!held.contains(wanted[i]));
        }
        lemma_all_missing(held, wanted.drop_last());
        assert(wanted =~= wanted.drop_last().push(wanted.last()));
    } else {
        assert(missing(held, wanted) =~= wanted);
    }
}

/// What a backfill takes in: every fetched event is either taken in or left behind; one that is
/// taken in comes after its parents, which are held or were taken in before it; and one is
/// left behind only for a parent that is neither held nor taken in.
pub proof fn law_parents_come_first(
    held: &[String],
    fetched: Vec<Event>,
    r: BackfillPlan,
    e: Event,
    i: int,
    j: int,
)
    requires
        call_ensures(plan_backfill, (held, fetched), r),
    ensures
        fetched@.contains(e) <==> r.apply@.contains(e) || r.stalled@.contains(e),
        r.apply@.len() + r.stalled@.len() == fetched@.len(),
        0 <= i < r.apply@.len() && 0 <= j < r.apply@[i].parents@.len() ==> text::views(
            held@,
        ).contains(r.apply@[i].parents@[j]@) || exists|k: int|
            0 <= k < i && (#[trigger] r.apply@[k]).id@ == r.apply@[i].parents@[j]@,
        0 <= i < r.stalled@.len() ==> exists|k: int|
            0 <= k < r.stalled@[i].parents@.len() && !text::views(held@).contains(
                (#[trigger] r.stalled@[i].parents@[k])@,
            ) && forall|a: int|
                0 <= a < r.apply@.len() ==> (#[trigger] r.apply@[a]).id@
                    != r.stalled@[i].parents@[k]@,
{
    let have = text::views(held@).to_set();
    fetched@.to_multiset_ensures();
    r.apply@.to_multiset_ensures();
    r.stalled@.to_multiset_ensures();
    assert(fetched@.contains(e) <==> fetched@.to_multiset().count(e) > 0);
    assert(r.apply@.contains(e) <==> r.apply@.to_multiset().count(e) > 0);
    assert(r.stalled@.contains(e) <==> r.stalled@.to_multiset().count(e) > 0);
    assert(r.apply@.to_multiset().add(r.stalled@.to_multiset()).count(e)
        == r.apply@.to_multiset().count(e) + r.stalled@.to_multiset().count(e));
    if 0 <= i < r.apply@.len() && 0 <= j < r.apply@[i].parents@.len() {
        let p = r.apply@[i].parents@[j]@;
        assert(ready(r.apply@[i], have.union(ids_of(r.apply@.take(i)))));
        assert(have.union(ids_of(r.apply@.take(i))).contains(p));
        if !have.contains(p) {
            let t = r.apply@.take(i);
            let k = choose|k: int| 0 <= k < t.len() && (#[trigger] t[k]).id@ == p;
            assert(r.apply@[k] == t[k]);
        }
    }
    if 0 <= i < r.stalled@.len() {
        let ids = have.union(ids_of(r.apply@));
        assert(!ready(r.stalled@[i], ids));
        let k = choose|k: int|
            0 <= k < r.stalled@[i].parents@.len() && !ids.contains(
                (#[trigger] r.stalled@[i].parents@[k])@,
            );
        let p = r.stalled@[i].parents@[k]@;
        assert(!have.contains(p) && !ids_of(r.apply@).contains(p));
        assert(!text::views(held@).contains(p));
        assert forall|a: int| 0 <= a < r.apply@.len() implies (#[trigger] r.apply@[a]).id@ != p by {
            if r.apply@[a].id@ == p {
                assert(ids_of(r.apply@).contains(p));
            }
        }
    }
}

/// What a backfill fetches next: never what is held, nor what was fetched; and, as long as the
/// last fetch brought something, every parent that is waited for and is neither. Once a fetch
/// brought nothing, nothing more is fetched.
pub proof fn law_what_is_fetched_next(
    held: &[String],
    plan: &BackfillPlan,
    grew: bool,
    r: Option<Vec<String>>,
    id: Seq<char>,
    i: int,
    j: int,
)
    requires
        call_ensures(next_fetch, (held, plan, grew), r),
    ensures
        !grew ==> r is None,
        r matches Some(ids) ==> ids@.len() > 0,
        r matches Some(ids) ==> (text::views(ids@).contains(id) ==> !text::views(held@).contains(id)
            && !ids_of(plan.apply@).contains(id) && !ids_of(plan.stalled@).contains(id)),
        grew && 0 <= i < plan.stalled@.len() && 0 <= j < plan.stalled@[i].parents@.len()
            && plan.stalled@[i].parents@[j]@ == id && !text::views(held@).contains(id) && !ids_of(
            plan.apply@,
        ).contains(id) && !ids_of(plan.stalled@).contains(id) ==> (r matches Some(ids)
            && text::views(ids@).contains(id)),
{
    let have = text::views(held@).to_set();
    assert(have.contains(id) <==> text::views(held@).contains(id));
    if grew && 0 <= i < plan.stalled@.len() && 0 <= j < plan.stalled@[i].parents@.len()
        && plan.stalled@[i].parents@[j]@ == id && !text::views(held@).contains(id) && !ids_of(
        plan.apply@,
    ).contains(id) && !ids_of(plan.stalled@).contains(id) {
        assert(lacks(have, *plan, id));
    }
    if let Some(ids) = r {
        if text::views(ids@).contains(id) {
            assert(lacks(have, *plan, id));
        }
    }
}

} // verus!
