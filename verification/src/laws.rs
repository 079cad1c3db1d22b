//! Laws of the coordination plane, proved from the handlers' contracts:
//! count accuracy (the shard increments an operation emits equal the
//! growth of the shard's membership sets), type stability (a tag, once
//! assigned, is never changed), and collection child identity (child ids
//! are handed out strictly increasing, so child resource ids never
//! repeat).

use vstd::prelude::*;

use crate::components::{
    child_rid, collection_new_post, collection_new_pubs, map_set_add,
    map_set_remove, model_delete_post, model_delete_pubs, model_set_post, model_set_pubs,
    rid_component, rid_ek, rid_entity, rid_shard,
};
use crate::keys::{
    spec_entities_key, spec_id_key, spec_incr_subject, spec_rid_key, spec_type_key,
};
use crate::store::{num_at, spec_remove_all, str_at, uniq_at, EntryV};
use crate::text::{spec_dec, spec_dec_int, spec_digit, spec_replace};
use crate::types::{Payload, Publication};

verus! {

/// No two elements of `s` are equal.
pub open spec fn distinct_seqs(s: Seq<Seq<char>>) -> bool {
    forall|i: int, j: int| 0 <= i < j < s.len() ==> s[i] != s[j]
}

/// What one publication asks the shard manager to add to `shard`'s count.
pub open spec fn incr_contrib(p: Publication, shard: Seq<char>) -> int {
    match p.payload {
        Payload::Incr { amount } => if p.subject@ == spec_incr_subject(shard) {
            amount as int
        } else {
            0
        },
        _ => 0,
    }
}

/// The total amount the publications ask the shard manager to add to
/// `shard`'s count.
pub open spec fn incr_total(pubs: Seq<Publication>, shard: Seq<char>) -> int
    decreases pubs.len(),
{
    if pubs.len() == 0 {
        0
    } else {
        incr_contrib(pubs[0], shard) + incr_total(pubs.drop_first(), shard)
    }
}

proof fn lemma_incr_total_zero(pubs: Seq<Publication>, shard: Seq<char>)
    requires
        forall|i: int| 0 <= i < pubs.len() ==> incr_contrib(#[trigger] pubs[i], shard) == 0,
    ensures
        incr_total(pubs, shard) == 0,
    decreases pubs.len(),
{
    if pubs.len() > 0 {
        assert(forall|i: int|
            0 <= i < pubs.drop_first().len() ==> incr_contrib(
                #[trigger] pubs.drop_first()[i],
                shard,
            ) == 0);
        lemma_incr_total_zero(pubs.drop_first(), shard);
    }
}

/// The sum over the component names `cs` of the sizes of `shard`'s
/// membership sets.
pub open spec fn membership_sum(
    m: Map<Seq<char>, EntryV>,
    shard: Seq<char>,
    cs: Seq<Seq<char>>,
) -> int
    decreases cs.len(),
{
    if cs.len() == 0 {
        0
    } else {
        membership_sum(m, shard, cs.drop_last()) + uniq_at(
            m,
            spec_entities_key(shard, cs.last()),
        ).len()
    }
}

/// Membership-set keys with one shard are distinct for distinct
/// components.
proof fn lemma_entities_key_injective(shard: Seq<char>, c1: Seq<char>, c2: Seq<char>)
    requires
        spec_entities_key(shard, c1) == spec_entities_key(shard, c2),
    ensures
        c1 == c2,
{
    let a = "decs:"@ + shard + ":"@;
    assert(spec_entities_key(shard, c1) =~= a + (c1 + ":entities"@));
    assert(spec_entities_key(shard, c2) =~= a + (c2 + ":entities"@));
    assert(c1.len() == c2.len());
    assert forall|i: int| 0 <= i < c1.len() implies c1[i] == c2[i] by {
        assert((a + (c1 + ":entities"@))[a.len() + i] == c1[i]);
        assert((a + (c2 + ":entities"@))[a.len() + i] == c2[i]);
    }
    assert(c1 =~= c2);
}

/// A type-tag key is never a membership-set key: one ends in `type`, the
/// other in `entities`.
pub proof fn lemma_type_key_ne_entities_key(rid: Seq<char>, shard: Seq<char>, c: Seq<char>)
    ensures
        spec_type_key(rid) != spec_entities_key(shard, c),
{
    reveal_strlit(":type");
    reveal_strlit(":entities");
    let tk = spec_type_key(rid);
    let ek = spec_entities_key(shard, c);
    assert(tk[tk.len() - 1] == 'e');
    assert(ek[ek.len() - 1] == 's') by {
        assert(ek =~= ("decs:"@ + shard + ":"@ + c) + ":entities"@);
        assert(ek[ek.len() - 1] == ":entities"@[8]);
    }
}

/// A child-id counter key is never a membership-set key: one ends in `id`,
/// the other in `entities`.
pub proof fn lemma_id_key_ne_entities_key(rid: Seq<char>, shard: Seq<char>, c: Seq<char>)
    ensures
        spec_id_key(rid) != spec_entities_key(shard, c),
{
    reveal_strlit(":id");
    reveal_strlit(":entities");
    let ik = spec_id_key(rid);
    let ek = spec_entities_key(shard, c);
    assert(ik[ik.len() - 1] == 'd');
    assert(ek[ek.len() - 1] == 's') by {
        assert(ek =~= ("decs:"@ + shard + ":"@ + c) + ":entities"@);
        assert(ek[ek.len() - 1] == ":entities"@[8]);
    }
}

/// A type-tag key is never a child-id counter key: one ends in `type`, the
/// other in `id`.
pub proof fn lemma_type_key_ne_id_key(r1: Seq<char>, r2: Seq<char>)
    ensures
        spec_type_key(r1) != spec_id_key(r2),
{
    reveal_strlit(":type");
    reveal_strlit(":id");
    let tk = spec_type_key(r1);
    let ik = spec_id_key(r2);
    assert(tk[tk.len() - 1] == 'e');
    assert(ik[ik.len() - 1] == 'd');
}

/// Changing one component's membership set by `d` while the others stay
/// untouched changes the membership sum by `d`.
proof fn lemma_membership_sum_delta(
    pre: Map<Seq<char>, EntryV>,
    post: Map<Seq<char>, EntryV>,
    shard: Seq<char>,
    cs: Seq<Seq<char>>,
    comp: Seq<char>,
    d: int,
)
    requires
        distinct_seqs(cs),
        cs.contains(comp),
        uniq_at(post, spec_entities_key(shard, comp)).len() == uniq_at(
            pre,
            spec_entities_key(shard, comp),
        ).len() + d,
        forall|c: Seq<char>|
            cs.contains(c) && c != comp ==> uniq_at(post, #[trigger] spec_entities_key(shard, c))
                == uniq_at(pre, spec_entities_key(shard, c)),
    ensures
        membership_sum(post, shard, cs) == membership_sum(pre, shard, cs) + d,
    decreases cs.len(),
{
    let rest = cs.drop_last();
    if cs.last() == comp {
        assert forall|c: Seq<char>|
            rest.contains(c) implies uniq_at(post, #[trigger] spec_entities_key(shard, c))
            == uniq_at(pre, spec_entities_key(shard, c)) by {
            let i = choose|i: int| 0 <= i < rest.len() && rest[i] == c;
            assert(cs[i] == c);
            assert(cs[i] != cs[cs.len() - 1]);
            assert(cs.contains(c));
        }
        lemma_membership_sum_same(pre, post, shard, rest);
    } else {
        assert(rest.contains(comp)) by {
            let i = choose|i: int| 0 <= i < cs.len() && cs[i] == comp;
            assert(cs[cs.len() - 1] != comp);
            assert(rest[i] == comp);
        }
        assert(distinct_seqs(rest));
        assert forall|c: Seq<char>|
            rest.contains(c) && c != comp implies uniq_at(
            post,
            #[trigger] spec_entities_key(shard, c),
        ) == uniq_at(pre, spec_entities_key(shard, c)) by {
            let i = choose|i: int| 0 <= i < rest.len() && rest[i] == c;
            assert(cs[i] == c);
            assert(cs.contains(c));
        }
        lemma_membership_sum_delta(pre, post, shard, rest, comp, d);
        assert(cs.contains(cs.last()));
        assert(uniq_at(post, spec_entities_key(shard, cs.last())) == uniq_at(
            pre,
            spec_entities_key(shard, cs.last()),
        ));
    }
}

/// A membership sum over components whose sets are untouched is unchanged.
proof fn lemma_membership_sum_same(
    pre: Map<Seq<char>, EntryV>,
    post: Map<Seq<char>, EntryV>,
    shard: Seq<char>,
    cs: Seq<Seq<char>>,
)
    requires
        forall|c: Seq<char>|
            cs.contains(c) ==> uniq_at(post, #[trigger] spec_entities_key(shard, c)) == uniq_at(
                pre,
                spec_entities_key(shard, c),
            ),
    ensures
        membership_sum(post, shard, cs) == membership_sum(pre, shard, cs),
    decreases cs.len(),
{
    if cs.len() > 0 {
        assert forall|c: Seq<char>|
            cs.drop_last().contains(c) implies uniq_at(
            post,
            #[trigger] spec_entities_key(shard, c),
        ) == uniq_at(pre, spec_entities_key(shard, c)) by {
            let i = choose|i: int| 0 <= i < cs.drop_last().len() && cs.drop_last()[i] == c;
            assert(cs[i] == c);
            assert(cs.contains(c));
        }
        lemma_membership_sum_same(pre, post, shard, cs.drop_last());
        assert(cs.contains(cs.last()));
    }
}

/// Removing a member from a duplicate-free list shortens it by one.
proof fn lemma_remove_all_distinct(s: Seq<Seq<char>>, x: Seq<char>)
    requires
        distinct_seqs(s),
        s.contains(x),
    ensures
        spec_remove_all(s, x).len() == s.len() - 1,
    decreases s.len(),
{
    let rest = s.drop_last();
    assert(distinct_seqs(rest));
    if s.last() == x {
        assert(!rest.contains(x)) by {
            if rest.contains(x) {
                let i = choose|i: int| 0 <= i < rest.len() && rest[i] == x;
                assert(s[i] == s[s.len() - 1]);
            }
        }
        lemma_remove_all_absent(rest, x);
    } else {
        assert(rest.contains(x)) by {
            let i = choose|i: int| 0 <= i < s.len() && s[i] == x;
            assert(i < s.len() - 1);
            assert(rest[i] == x);
        }
        lemma_remove_all_distinct(rest, x);
    }
}

/// Two equal texts with a common stem have equal suffixes.
proof fn lemma_concat_cancel_left(a: Seq<char>, x: Seq<char>, y: Seq<char>)
    requires
        a + x == a + y,
    ensures
        x == y,
{
    assert((a + x).len() == a.len() + x.len());
    assert((a + y).len() == a.len() + y.len());
    assert forall|i: int| 0 <= i < x.len() implies x[i] == y[i] by {
        assert((a + x)[a.len() + i] == x[i]);
        assert((a + y)[a.len() + i] == y[i]);
    }
    assert(x =~= y);
}

/// Every character of a decimal rendering is a digit.
proof fn lemma_dec_digits(n: nat)
    ensures
        forall|i: int| 0 <= i < spec_dec(n).len() ==> is_digit(#[trigger] spec_dec(n)[i]),
    decreases n,
{
    if n < 10 {
    } else {
        lemma_dec_digits(n / 10);
        assert forall|i: int| 0 <= i < spec_dec(n).len() implies is_digit(
            #[trigger] spec_dec(n)[i],
        ) by {
            if i < spec_dec(n / 10).len() {
                assert(spec_dec(n)[i] == spec_dec(n / 10)[i]);
            } else {
                assert(spec_dec(n)[i] == spec_digit(n % 10));
            }
        }
    }
}

/// The ten digit characters.
pub open spec fn is_digit(c: char) -> bool {
    c == '0' || c == '1' || c == '2' || c == '3' || c == '4' || c == '5' || c == '6' || c == '7'
        || c == '8' || c == '9'
}

/// Distinct integers have distinct decimal renderings.
proof fn lemma_dec_int_injective(a: int, b: int)
    requires
        a != b,
    ensures
        spec_dec_int(a) != spec_dec_int(b),
{
    reveal_strlit("-");
    if a >= 0 && b >= 0 {
        crate::text::lemma_dec_injective(a as nat, b as nat);
    } else if a >= 0 && b < 0 {
        lemma_dec_digits(a as nat);
        assert(spec_dec_int(a)[0] == spec_dec(a as nat)[0]);
        assert(spec_dec_int(b)[0] == '-');
    } else if a < 0 && b >= 0 {
        lemma_dec_digits(b as nat);
        assert(spec_dec_int(b)[0] == spec_dec(b as nat)[0]);
        assert(spec_dec_int(a)[0] == '-');
    } else {
        crate::text::lemma_dec_injective((-a) as nat, (-b) as nat);
        if spec_dec_int(a) == spec_dec_int(b) {
            lemma_concat_cancel_left(seq!['-'], spec_dec((-a) as nat), spec_dec((-b) as nat));
        }
    }
}

/// Removing an absent element changes nothing.
proof fn lemma_remove_all_absent(s: Seq<Seq<char>>, x: Seq<char>)
    requires
        !s.contains(x),
    ensures
        spec_remove_all(s, x) == s,
    decreases s.len(),
{
    if s.len() > 0 {
        assert(!s.drop_last().contains(x)) by {
            if s.drop_last().contains(x) {
                let i = choose|i: int| 0 <= i < s.drop_last().len() && s.drop_last()[i] == x;
                assert(s[i] == x);
            }
        }
        lemma_remove_all_absent(s.drop_last(), x);
        assert(s.last() != x) by {
            assert(s[s.len() - 1] == s.last());
        }
        assert(spec_remove_all(s, x) =~= s);
    }
}

/// Count accuracy for a model set.  Over any duplicate-free family of
/// component names that includes the one being set, the shard increments
/// the operation emits equal the growth of the shard's membership sets:
/// one for a fresh component value, none for an overwrite.  The law asks
/// that membership agree with value existence at the touched pair, and
/// that the value key collide with no membership key.
pub proof fn lemma_set_count_accuracy(
    pre: Map<Seq<char>, EntryV>,
    post: Map<Seq<char>, EntryV>,
    pubs: Seq<Publication>,
    rid: Seq<char>,
    p: Seq<char>,
    reply: Seq<char>,
    cs: Seq<Seq<char>>,
)
    requires
        model_set_post(pre, post, rid, p),
        model_set_pubs(pre, pubs, rid, p, reply),
        distinct_seqs(cs),
        cs.contains(rid_component(rid)),
        uniq_at(pre, rid_ek(rid)).contains(rid_entity(rid)) <==> pre.contains_key(
            spec_rid_key(rid),
        ),
        forall|c: Seq<char>|
            cs.contains(c) ==> #[trigger] spec_entities_key(rid_shard(rid), c) != spec_rid_key(
                rid,
            ),
    ensures
        membership_sum(post, rid_shard(rid), cs) == membership_sum(pre, rid_shard(rid), cs)
            + incr_total(pubs, rid_shard(rid)),
{
    let shard = rid_shard(rid);
    let comp = rid_component(rid);
    let ek = rid_ek(rid);
    let k = spec_rid_key(rid);
    let tk = spec_type_key(rid);
    let entity = rid_entity(rid);
    let m1 = pre.insert(tk, EntryV::Text("M"@));
    let m2 = map_set_add(m1, ek, entity);
    lemma_type_key_ne_entities_key(rid, shard, comp);
    assert(uniq_at(m1, ek) == uniq_at(pre, ek));
    let existed = pre.contains_key(k);
    let unchanged = existed && str_at(pre, k) == Some(p);
    if existed {
        assert(m2 == m1);
        assert forall|c: Seq<char>|
            cs.contains(c) implies uniq_at(post, #[trigger] spec_entities_key(shard, c))
            == uniq_at(pre, spec_entities_key(shard, c)) by {
            lemma_type_key_ne_entities_key(rid, shard, c);
        }
        lemma_membership_sum_same(pre, post, shard, cs);
        assert forall|i: int|
            0 <= i < pubs.len() implies incr_contrib(#[trigger] pubs[i], shard) == 0 by {
            if !unchanged {
                if i == 0 {
                    assert(crate::types::is_change_pub(pubs[0], rid, p));
                } else {
                    assert(crate::types::is_success_reply(pubs[1], reply));
                }
            } else {
                assert(crate::types::is_success_reply(pubs[0], reply));
            }
        }
        lemma_incr_total_zero(pubs, shard);
    } else {
        assert(!uniq_at(pre, ek).contains(entity));
        assert(uniq_at(m2, ek) == uniq_at(pre, ek).push(entity));
        assert(uniq_at(post, ek) == uniq_at(m2, ek));
        assert forall|c: Seq<char>|
            cs.contains(c) && c != comp implies uniq_at(
            post,
            #[trigger] spec_entities_key(shard, c),
        ) == uniq_at(pre, spec_entities_key(shard, c)) by {
            lemma_type_key_ne_entities_key(rid, shard, c);
            if spec_entities_key(shard, c) == ek {
                lemma_entities_key_injective(shard, c, comp);
            }
        }
        lemma_membership_sum_delta(pre, post, shard, cs, comp, 1);
        assert(crate::types::is_incr_pub(pubs[0], shard, 1));
        assert(incr_contrib(pubs[0], shard) == 1);
        let rest = pubs.drop_first();
        assert forall|i: int|
            0 <= i < rest.len() implies incr_contrib(#[trigger] rest[i], shard) == 0 by {
            assert(rest[i] == pubs[i + 1]);
            if i == 0 {
                assert(crate::types::is_change_pub(pubs[1], rid, p));
            } else {
                assert(crate::types::is_success_reply(pubs[2], reply));
            }
        }
        lemma_incr_total_zero(rest, shard);
    }
}

/// Count accuracy for a model delete of an existing value: the one shard
/// decrement the operation emits matches the membership set shrinking by
/// one.  The law asks that the deleted value exist with its entity in the
/// membership set, that the set be duplicate-free, and that the value key
/// collide with no membership key.
pub proof fn lemma_delete_count_accuracy(
    pre: Map<Seq<char>, EntryV>,
    post: Map<Seq<char>, EntryV>,
    pubs: Seq<Publication>,
    rid: Seq<char>,
    reply: Seq<char>,
    cs: Seq<Seq<char>>,
)
    requires
        model_delete_post(pre, post, rid),
        model_delete_pubs(pubs, rid, reply),
        distinct_seqs(cs),
        cs.contains(rid_component(rid)),
        uniq_at(pre, rid_ek(rid)).contains(rid_entity(rid)),
        distinct_seqs(uniq_at(pre, rid_ek(rid))),
        forall|c: Seq<char>|
            cs.contains(c) ==> #[trigger] spec_entities_key(rid_shard(rid), c) != spec_rid_key(
                rid,
            ),
    ensures
        membership_sum(post, rid_shard(rid), cs) == membership_sum(pre, rid_shard(rid), cs)
            + incr_total(pubs, rid_shard(rid)),
{
    let shard = rid_shard(rid);
    let comp = rid_component(rid);
    let ek = rid_ek(rid);
    let k = spec_rid_key(rid);
    let tk = spec_type_key(rid);
    let entity = rid_entity(rid);
    let m0 = pre.remove(tk);
    lemma_type_key_ne_entities_key(rid, shard, comp);
    assert(uniq_at(m0, ek) == uniq_at(pre, ek));
    let m2 = map_set_remove(m0, ek, entity);
    assert(uniq_at(m2, ek) == spec_remove_all(uniq_at(pre, ek), entity));
    lemma_remove_all_distinct(uniq_at(pre, ek), entity);
    assert(uniq_at(post, ek) == uniq_at(m2, ek));
    assert forall|c: Seq<char>|
        cs.contains(c) && c != comp implies uniq_at(
        post,
        #[trigger] spec_entities_key(shard, c),
    ) == uniq_at(pre, spec_entities_key(shard, c)) by {
        lemma_type_key_ne_entities_key(rid, shard, c);
        if spec_entities_key(shard, c) == ek {
            lemma_entities_key_injective(shard, c, comp);
        }
    }
    lemma_membership_sum_delta(pre, post, shard, cs, comp, -1);
    assert(crate::types::is_incr_pub(pubs[0], shard, -1i32));
    assert(incr_contrib(pubs[0], shard) == -1);
    let rest = pubs.drop_first();
    assert forall|i: int|
        0 <= i < rest.len() implies incr_contrib(#[trigger] rest[i], shard) == 0 by {
        assert(rest[i] == pubs[i + 1]);
        assert(crate::types::is_success_reply(pubs[1], reply));
    }
    lemma_incr_total_zero(rest, shard);
}

/// Count accuracy for a collection new whose entity does not yet hold an
/// item of the collection: the one shard increment the operation emits
/// matches the membership set growing by one.  (An entity appending a
/// second item to one collection grows the count without growing the
/// membership set; such inputs are outside this law.)  The law asks that
/// neither the parent's nor the child's value key collide with a
/// membership key.
pub proof fn lemma_new_count_accuracy(
    pre: Map<Seq<char>, EntryV>,
    post: Map<Seq<char>, EntryV>,
    pubs: Seq<Publication>,
    rid: Seq<char>,
    p: Seq<char>,
    reply: Seq<char>,
    cs: Seq<Seq<char>>,
)
    requires
        collection_new_post(pre, post, rid, p),
        collection_new_pubs(pre, pubs, rid, reply),
        distinct_seqs(cs),
        cs.contains(rid_component(rid)),
        !uniq_at(pre, rid_ek(rid)).contains(rid_entity(rid)),
        forall|c: Seq<char>|
            cs.contains(c) ==> #[trigger] spec_entities_key(rid_shard(rid), c) != spec_rid_key(
                rid,
            ) && spec_entities_key(rid_shard(rid), c) != spec_rid_key(
                child_rid(rid, num_at(pre, spec_id_key(rid)) + 1),
            ),
    ensures
        membership_sum(post, rid_shard(rid), cs) == membership_sum(pre, rid_shard(rid), cs)
            + incr_total(pubs, rid_shard(rid)),
{
    let shard = rid_shard(rid);
    let comp = rid_component(rid);
    let ek = rid_ek(rid);
    let k = spec_rid_key(rid);
    let entity = rid_entity(rid);
    let idk = spec_id_key(rid);
    let id = num_at(pre, idk) + 1;
    let child = child_rid(rid, id);
    lemma_id_key_ne_entities_key(rid, shard, comp);
    lemma_type_key_ne_entities_key(rid, shard, comp);
    lemma_type_key_ne_entities_key(child, shard, comp);
    let m1 = pre.insert(idk, EntryV::Num(id));
    let m2 = m1.insert(spec_type_key(rid), EntryV::Text("C"@));
    let m3 = m2.insert(k, EntryV::List(crate::store::list_at(m2, k).push(child)));
    let m4 = m3.insert(spec_rid_key(child), EntryV::Text(p));
    let m5 = m4.insert(spec_type_key(child), EntryV::Text("M"@));
    assert(uniq_at(m5, ek) == uniq_at(pre, ek));
    assert(uniq_at(post, ek) == uniq_at(pre, ek).push(entity));
    assert forall|c: Seq<char>|
        cs.contains(c) && c != comp implies uniq_at(
        post,
        #[trigger] spec_entities_key(shard, c),
    ) == uniq_at(pre, spec_entities_key(shard, c)) by {
        lemma_id_key_ne_entities_key(rid, shard, c);
        lemma_type_key_ne_entities_key(rid, shard, c);
        lemma_type_key_ne_entities_key(child, shard, c);
        if spec_entities_key(shard, c) == ek {
            lemma_entities_key_injective(shard, c, comp);
        }
    }
    lemma_membership_sum_delta(pre, post, shard, cs, comp, 1);
    let d1 = pubs.drop_first();
    let d2 = d1.drop_first();
    assert(incr_contrib(pubs[0], shard) == 0);
    assert(d1[0] == pubs[1]);
    assert(crate::types::is_incr_pub(pubs[1], shard, 1));
    assert(incr_contrib(d1[0], shard) == 1);
    assert forall|i: int|
        0 <= i < d2.len() implies incr_contrib(#[trigger] d2[i], shard) == 0 by {
        assert(d2[i] == pubs[i + 2]);
        assert(crate::types::is_new_item_reply(pubs[2], reply, child));
    }
    lemma_incr_total_zero(d2, shard);
    assert(incr_total(d1, shard) == 1);
    assert(incr_total(pubs, shard) == 1);
}

/// Idempotence: a set whose value already equals the stored one emits no
/// change event.
pub proof fn lemma_set_idempotent(
    pre: Map<Seq<char>, EntryV>,
    pubs: Seq<Publication>,
    rid: Seq<char>,
    p: Seq<char>,
    reply: Seq<char>,
)
    requires
        model_set_pubs(pre, pubs, rid, p, reply),
        str_at(pre, spec_rid_key(rid)) == Some(p),
    ensures
        forall|i: int| 0 <= i < pubs.len() ==> !(#[trigger] pubs[i].payload is Change),
{
    assert(pre.contains_key(spec_rid_key(rid)));
    assert forall|i: int| 0 <= i < pubs.len() implies !(#[trigger] pubs[i].payload is Change) by {
        assert(crate::types::is_success_reply(pubs[0], reply));
    }
}

/// Type stability of a model set: every type tag present before keeps its
/// value, provided `rid`'s own tag (if present) already reads as a model
/// and the value key is no type key.
pub proof fn lemma_set_type_stability(
    pre: Map<Seq<char>, EntryV>,
    post: Map<Seq<char>, EntryV>,
    rid: Seq<char>,
    p: Seq<char>,
)
    requires
        model_set_post(pre, post, rid, p),
        str_at(pre, spec_type_key(rid)) is None || str_at(pre, spec_type_key(rid)) == Some("M"@),
        forall|r2: Seq<char>| #[trigger] spec_type_key(r2) != spec_rid_key(rid),
    ensures
        forall|r2: Seq<char>|
            str_at(pre, #[trigger] spec_type_key(r2)) is Some ==> str_at(post, spec_type_key(r2))
                == str_at(pre, spec_type_key(r2)),
{
    assert forall|r2: Seq<char>|
        str_at(pre, #[trigger] spec_type_key(r2)) is Some implies str_at(post, spec_type_key(r2))
        == str_at(pre, spec_type_key(r2)) by {
        let t2 = spec_type_key(r2);
        lemma_type_key_ne_entities_key(r2, rid_shard(rid), rid_component(rid));
        if t2 == spec_type_key(rid) {
            assert(str_at(pre, t2) == Some("M"@));
            assert(str_at(post, t2) == Some("M"@));
        }
    }
}

/// Type stability of a collection new: every type tag present before
/// keeps its value, provided the parent's tag (if present) already reads
/// as a collection, the child's (if present) as a model, and neither value
/// key is a type key.
pub proof fn lemma_new_type_stability(
    pre: Map<Seq<char>, EntryV>,
    post: Map<Seq<char>, EntryV>,
    rid: Seq<char>,
    p: Seq<char>,
)
    requires
        collection_new_post(pre, post, rid, p),
        str_at(pre, spec_type_key(rid)) is None || str_at(pre, spec_type_key(rid)) == Some("C"@),
        str_at(pre, spec_type_key(child_rid(rid, num_at(pre, spec_id_key(rid)) + 1))) is None
            || str_at(pre, spec_type_key(child_rid(rid, num_at(pre, spec_id_key(rid)) + 1)))
            == Some("M"@),
        forall|r2: Seq<char>| #[trigger] spec_type_key(r2) != spec_rid_key(rid),
        forall|r2: Seq<char>|
            #[trigger] spec_type_key(r2) != spec_rid_key(
                child_rid(rid, num_at(pre, spec_id_key(rid)) + 1),
            ),
    ensures
        forall|r2: Seq<char>|
            str_at(pre, #[trigger] spec_type_key(r2)) is Some ==> str_at(post, spec_type_key(r2))
                == str_at(pre, spec_type_key(r2)),
{
    let id = num_at(pre, spec_id_key(rid)) + 1;
    let child = child_rid(rid, id);
    assert forall|r2: Seq<char>|
        str_at(pre, #[trigger] spec_type_key(r2)) is Some implies str_at(post, spec_type_key(r2))
        == str_at(pre, spec_type_key(r2)) by {
        let t2 = spec_type_key(r2);
        lemma_type_key_ne_entities_key(r2, rid_shard(rid), rid_component(rid));
        lemma_type_key_ne_id_key(r2, rid);
        if t2 == spec_type_key(rid) {
            assert(str_at(pre, t2) == Some("C"@));
            assert(str_at(post, t2) == Some("C"@));
        } else if t2 == spec_type_key(child) {
            assert(str_at(pre, t2) == Some("M"@));
            assert(str_at(post, t2) == Some("M"@));
        }
    }
}

/// Type stability of a delete: a delete removes tags but never rewrites
/// one; every tag present after the delete kept its value.
pub proof fn lemma_delete_type_stability(
    pre: Map<Seq<char>, EntryV>,
    post: Map<Seq<char>, EntryV>,
    rid: Seq<char>,
)
    requires
        model_delete_post(pre, post, rid),
    ensures
        forall|r2: Seq<char>|
            str_at(post, #[trigger] spec_type_key(r2)) is Some ==> str_at(pre, spec_type_key(r2))
                == str_at(post, spec_type_key(r2)),
{
    assert forall|r2: Seq<char>|
        str_at(post, #[trigger] spec_type_key(r2)) is Some implies str_at(pre, spec_type_key(r2))
        == str_at(post, spec_type_key(r2)) by {
        let t2 = spec_type_key(r2);
        lemma_type_key_ne_entities_key(r2, rid_shard(rid), rid_component(rid));
    }
}

/// Collection child identity: across two consecutive news on one
/// collection, the child-id counter grows by one, so the handed-out child
/// ids strictly increase and the child resource ids are distinct.
pub proof fn lemma_new_children_monotonic(
    pre: Map<Seq<char>, EntryV>,
    mid: Map<Seq<char>, EntryV>,
    post: Map<Seq<char>, EntryV>,
    rid: Seq<char>,
    p1: Seq<char>,
    p2: Seq<char>,
)
    requires
        collection_new_post(pre, mid, rid, p1),
        collection_new_post(mid, post, rid, p2),
    ensures
        ({
            let id1 = num_at(pre, spec_id_key(rid)) + 1;
            let id2 = num_at(mid, spec_id_key(rid)) + 1;
            id2 == id1 + 1 && child_rid(rid, id1) != child_rid(rid, id2)
        }),
{
    let idk = spec_id_key(rid);
    let k = spec_rid_key(rid);
    let id1 = num_at(pre, idk) + 1;
    let child = child_rid(rid, id1);
    let ck = spec_rid_key(child);
    reveal_strlit(":id");
    reveal_strlit(":type");
    reveal_strlit(".");
    reveal_strlit("-");
    assert(idk != k) by {
        assert(idk.len() == k.len() + 3);
    }
    assert(ck =~= k + ":"@ + spec_replace(spec_dec_int(id1), '.', ':')) by {
        reveal_strlit(":");
        assert(spec_replace(child, '.', ':') =~= spec_replace(rid, '.', ':') + ":"@
            + spec_replace(spec_dec_int(id1), '.', ':'));
    }
    assert(spec_dec_int(id1).len() >= 1) by {
        if id1 >= 0 {
            crate::text::lemma_dec_len(id1 as nat);
        } else {
            crate::text::lemma_dec_len((-id1) as nat);
        }
    }
    assert(idk != ck) by {
        reveal_strlit(":");
        if idk == ck {
            reveal_strlit("id");
            assert(idk =~= (k + ":"@) + "id"@);
            assert(ck =~= (k + ":"@) + spec_replace(spec_dec_int(id1), '.', ':'));
            lemma_concat_cancel_left(
                k + ":"@,
                "id"@,
                spec_replace(spec_dec_int(id1), '.', ':'),
            );
            let d = spec_replace(spec_dec_int(id1), '.', ':');
            assert(d[0] == "id"@[0]);
            assert(d[0] == (if spec_dec_int(id1)[0] == '.' {
                ':'
            } else {
                spec_dec_int(id1)[0]
            }));
            if id1 >= 0 {
                lemma_dec_digits(id1 as nat);
                assert(spec_dec_int(id1)[0] == spec_dec(id1 as nat)[0]);
                assert(is_digit(spec_dec(id1 as nat)[0]));
            } else {
                assert(spec_dec_int(id1)[0] == '-');
            }
        }
    }
    assert(idk != spec_type_key(rid)) by {
        lemma_type_key_ne_id_key(rid, rid);
    }
    assert(idk != spec_type_key(child)) by {
        lemma_type_key_ne_id_key(child, rid);
    }
    assert(idk != rid_ek(rid)) by {
        lemma_id_key_ne_entities_key(rid, rid_shard(rid), rid_component(rid));
    }
    assert(num_at(mid, idk) == id1);
    let id2 = num_at(mid, idk) + 1;
    assert(id2 == id1 + 1);
    assert(child_rid(rid, id1) != child_rid(rid, id2)) by {
        lemma_dec_int_injective(id1, id2);
        if child_rid(rid, id1) == child_rid(rid, id2) {
            lemma_concat_cancel_left(rid + "."@, spec_dec_int(id1), spec_dec_int(id2));
        }
    }
}

} // verus!
