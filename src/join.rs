//! The join resolver: an ordered FROM/JOIN clause over the relationships that
//! the catalog declares.
use vstd::prelude::*;
use crate::error::{text_result, Failure, PersistenceError};
use crate::fields::{find_table, table_index};
use crate::models::{entry_view, relationship_view, RelationshipMap, Table};
use crate::text::{join_seq, same_text, views};

verus! {

/// Whether relationship `rel` has an entry for the table `child`.
pub open spec fn mentions(rel: RelationshipMap, child: Seq<char>) -> bool {
    exists|e: int| 0 <= e < rel@.len() && (#[trigger] rel@[e]).0@ == child
}

/// `r` is the first of `rels` with an entry for `child`.
pub open spec fn first_relationship(rels: Seq<RelationshipMap>, child: Seq<char>, r: int) -> bool {
    &&& 0 <= r < rels.len()
    &&& mentions(rels[r], child)
    &&& forall|q: int| 0 <= q < r ==> !mentions(#[trigger] rels[q], child)
}

/// The first relationship that `t` declares towards `child`.
pub open spec fn relationship_to(t: Table, child: Seq<char>) -> Option<RelationshipMap> {
    if exists|r: int| first_relationship(t.relationships@, child, r) {
        Some(t.relationships@[choose|r: int| first_relationship(t.relationships@, child, r)])
    } else {
        None
    }
}

/// `parent.p = child.c` for one entry `(_, (p, c))`.
pub open spec fn column_pair_condition(
    parent: Seq<char>,
    child: Seq<char>,
    e: (Seq<char>, (Seq<char>, Seq<char>)),
) -> Seq<char> {
    parent + "."@ + e.1.0 + " = "@ + child + "."@ + e.1.1
}

/// The ON condition for every column pair of `rel`, joined by ` AND `.
pub open spec fn join_condition(parent: Seq<char>, child: Seq<char>, rel: RelationshipMap) -> Seq<char> {
    join_seq(
        relationship_view(rel).map_values(
            |e: (Seq<char>, (Seq<char>, Seq<char>))| column_pair_condition(parent, child, e),
        ),
        " AND "@,
    )
}

/// The most recently placed of `ts[0..k]` that declares a relationship to `child`.
pub open spec fn linked_parent(ts: Seq<Table>, child: Seq<char>, k: int) -> Option<int>
    decreases k,
{
    if k <= 0 {
        None
    } else if relationship_to(ts[k - 1], child) is Some {
        Some(k - 1)
    } else {
        linked_parent(ts, child, k - 1)
    }
}

/// ` JOIN T ON ...` for the table at `i`, joined to its linked parent.
pub open spec fn join_clause(ts: Seq<Table>, i: int) -> Option<Seq<char>> {
    let child = ts[i].name@;
    match linked_parent(ts, child, i) {
        None => None,
        Some(j) => Some(
            " JOIN "@ + child + " ON "@ + join_condition(
                ts[j].name@,
                child,
                relationship_to(ts[j], child)->Some_0,
            ),
        ),
    }
}

/// The join plan of the first `n` tables: the first is the root, each later
/// one joins the most recently placed table that declares a relationship to it.
pub open spec fn join_prefix(ts: Seq<Table>, n: int) -> Result<Seq<char>, Failure>
    decreases n,
{
    if n <= 1 {
        Ok(ts[0].name@)
    } else {
        match join_prefix(ts, n - 1) {
            Err(e) => Err(e),
            Ok(q) => match join_clause(ts, n - 1) {
                None => Err(Failure::JoinPathNotFound(ts[n - 1].name@)),
                Some(c) => Ok(q + c),
            },
        }
    }
}

/// The FROM/JOIN clause over `ts`, in order; fails when there is no table or
/// when a table has no relationship from a table placed before it.
pub open spec fn join_plan(ts: Seq<Table>) -> Result<Seq<char>, Failure> {
    if ts.len() == 0 {
        Err(Failure::JoinPathNotFound(Seq::empty()))
    } else {
        join_prefix(ts, ts.len() as int)
    }
}

proof fn lemma_join_prefix_fails(ts: Seq<Table>, m: int, n: int)
    requires
        2 <= m <= n,
        join_prefix(ts, m) is Err,
    ensures
        join_prefix(ts, n) == join_prefix(ts, m),
    decreases n - m,
{
    if m < n {
        lemma_join_prefix_fails(ts, m, n - 1);
    }
}

/// The tables behind shared references.
pub open spec fn tables_of(ts: Seq<&Table>) -> Seq<Table> {
    ts.map_values(|t: &Table| *t)
}

/// `i` is the first of `names` that no catalog table carries.
pub open spec fn first_missing(catalog: Seq<Table>, names: Seq<Seq<char>>, i: int) -> bool {
    &&& 0 <= i < names.len()
    &&& table_index(catalog, names[i]) is None
    &&& forall|j: int| 0 <= j < i ==> table_index(catalog, names[j]) is Some
}

/// The catalog tables that `names` designate (the first of each name).
pub open spec fn designated(catalog: Seq<Table>, names: Seq<Seq<char>>) -> Seq<Table> {
    names.map_values(|n: Seq<char>| catalog[table_index(catalog, n)->Some_0])
}

/// The join plan over the catalog tables named by `names`, or the first name
/// that the catalog lacks.
pub open spec fn required_join(catalog: Seq<Table>, names: Seq<Seq<char>>) -> Result<Seq<char>, Failure> {
    if exists|i: int| first_missing(catalog, names, i) {
        Err(Failure::FieldNotFound(names[choose|i: int| first_missing(catalog, names, i)]))
    } else {
        join_plan(designated(catalog, names))
    }
}

/// The first relationship among `relationships` with an entry for `child_table`.
pub fn find_relationship<'a>(child_table: &str, relationships: &'a [RelationshipMap]) -> (r: Option<
    &'a RelationshipMap,
>)
    ensures
        match r {
            Some(rel) => exists|k: int|
                first_relationship(relationships@, child_table@, k) && relationships@[k] == *rel,
            None => forall|k: int| !first_relationship(relationships@, child_table@, k),
        },
{
    let mut k: usize = 0;
    while k < relationships.len()
        invariant
            k <= relationships@.len(),
            forall|q: int| 0 <= q < k ==> !mentions(#[trigger] relationships@[q], child_table@),
        decreases relationships@.len() - k,
    {
        let rel = &relationships[k];
        let mut e: usize = 0;
        while e < rel.len()
            invariant
                e <= rel@.len(),
                k < relationships@.len(),
                *rel == relationships@[k as int],
                forall|q: int| 0 <= q < k ==> !mentions(#[trigger] relationships@[q], child_table@),
                forall|x: int| 0 <= x < e ==> (#[trigger] rel@[x]).0@ != child_table@,
            decreases rel@.len() - e,
        {
            if same_text(rel[e].0.as_str(), child_table) {
                proof {
                    assert(mentions(relationships@[k as int], child_table@));
                    assert(first_relationship(relationships@, child_table@, k as int));
                }
                return Some(rel);
            }
            e = e + 1;
        }
        k = k + 1;
    }
    None
}

/// The relationship that `t` declares towards `child`, if any.
fn relationship_of<'a>(t: &'a Table, child: &str) -> (r: Option<&'a RelationshipMap>)
    ensures
        match r {
            Some(rel) => relationship_to(*t, child@) == Some(*rel),
            None => relationship_to(*t, child@) is None,
        },
{
    let r = find_relationship(child, t.relationships.as_slice());
    proof {
        if let Some(rel) = r {
            let k = choose|k: int| first_relationship(t.relationships@, child@, k) && t.relationships@[k] == *rel;
            let c = choose|c: int| first_relationship(t.relationships@, child@, c);
            assert(c == k) by {
                if c < k {
                    assert(!mentions(t.relationships@[c], child@));
                } else if c > k {
                    assert(!mentions(t.relationships@[k], child@));
                }
            }
        }
    }
    r
}

/// `parent.p = child.c AND ...` over the column pairs of `rel`.
fn condition_text(parent: &str, child: &str, rel: &RelationshipMap) -> (r: String)
    ensures
        r@ == join_condition(parent@, child@, *rel),
{
    let ghost conds = relationship_view(*rel).map_values(
        |e: (Seq<char>, (Seq<char>, Seq<char>))| column_pair_condition(parent@, child@, e),
    );
    let mut out = String::new();
    let mut i: usize = 0;
    while i < rel.len()
        invariant
            i <= rel@.len(),
            conds == relationship_view(*rel).map_values(
                |e: (Seq<char>, (Seq<char>, Seq<char>))| column_pair_condition(parent@, child@, e),
            ),
            out@ == join_seq(conds.take(i as int), " AND "@),
        decreases rel@.len() - i,
    {
        let ghost before = out@;
        if i > 0 {
            out.append(" AND ");
        }
        out.append(parent);
        out.append(".");
        out.append(rel[i].1.0.as_str());
        out.append(" = ");
        out.append(child);
        out.append(".");
        out.append(rel[i].1.1.as_str());
        proof {
            let c = column_pair_condition(parent@, child@, entry_view(rel@[i as int]));
            assert(conds[i as int] == c);
            assert(conds.take(i + 1).drop_last() =~= conds.take(i as int));
            if i == 0 {
                assert(out@ =~= c);
            } else {
                assert(out@ =~= before + " AND "@ + c);
            }
        }
        i = i + 1;
    }
    proof {
        assert(conds.take(rel@.len() as int) =~= conds);
    }
    out
}

/// The FROM/JOIN clause over `tables` in the order given: the first table is
/// the root, and each later table joins the most recently placed table that
/// declares a relationship to it.
pub fn generate_join_query(tables: &[&Table]) -> (r: Result<String, PersistenceError>)
    ensures
        text_result(r) == join_plan(tables_of(tables@)),
{
    let ghost ts = tables_of(tables@);
    if tables.len() == 0 {
        return Err(PersistenceError::JoinPathNotFound(String::new()));
    }
    let mut query = String::from_str(tables[0].name.as_str());
    let mut i: usize = 1;
    while i < tables.len()
        invariant
            1 <= i <= tables@.len(),
            ts == tables_of(tables@),
            ts.len() == tables@.len(),
            join_prefix(ts, i as int) == Ok::<Seq<char>, Failure>(query@),
        decreases tables@.len() - i,
    {
        let table = tables[i];
        let child = table.name.as_str();
        assert(ts[i as int] == *table);
        let mut j: usize = i;
        let mut found: Option<(usize, &RelationshipMap)> = None;
        while j > 0 && found.is_none()
            invariant
                j <= i < tables@.len(),
                ts == tables_of(tables@),
                child@ == ts[i as int].name@,
                match found {
                    None => linked_parent(ts, child@, i as int) == linked_parent(ts, child@, j as int),
                    Some((p, rel)) => p < i && linked_parent(ts, child@, i as int) == Some(p as int)
                        && relationship_to(ts[p as int], child@) == Some(*rel),
                },
            decreases j + if found is None { 1int } else { 0int },
        {
            let prev = tables[j - 1];
            assert(ts[j - 1] == *prev);
            match relationship_of(prev, child) {
                Some(rel) => {
                    found = Some((j - 1, rel));
                },
                None => {
                    j = j - 1;
                },
            }
        }
        match found {
            None => {
                proof {
                    assert(linked_parent(ts, child@, 0) is None);
                    lemma_join_prefix_fails(ts, i as int + 1, ts.len() as int);
                }
                return Err(PersistenceError::JoinPathNotFound(table.name.clone()));
            },
            Some((p, rel)) => {
                let cond = condition_text(tables[p].name.as_str(), child, rel);
                let ghost before = query@;
                query.append(" JOIN ");
                query.append(child);
                query.append(" ON ");
                query.append(cond.as_str());
                proof {
                    assert(ts[p as int] == *tables@[p as int]);
                    assert(linked_parent(ts, child@, i as int) == Some(p as int));
                    assert(query@ =~= before + join_clause(ts, i as int)->Some_0);
                }
            },
        }
        i = i + 1;
    }
    Ok(query)
}

/// The FROM/JOIN clause joining the catalog tables named in
/// `required_table_names`, in that order; fails with the first name that the
/// catalog lacks, or when no join path exists.
pub fn handle_required_table(registered_table: &[Table], required_table_names: &Vec<String>) -> (r: Result<
    String,
    PersistenceError,
>)
    ensures
        text_result(r) == required_join(registered_table@, views(required_table_names@)),
{
    let ghost names = views(required_table_names@);
    let mut needed: Vec<&Table> = Vec::new();
    let mut i: usize = 0;
    while i < required_table_names.len()
        invariant
            i <= required_table_names@.len(),
            names == views(required_table_names@),
            forall|j: int| 0 <= j < i ==> table_index(registered_table@, names[j]) is Some,
            needed@.len() == i,
            tables_of(needed@) == designated(registered_table@, names.take(i as int)),
        decreases required_table_names@.len() - i,
    {
        match find_table(registered_table, required_table_names[i].as_str()) {
            None => {
                proof {
                    assert(first_missing(registered_table@, names, i as int));
                    let c = choose|c: int| first_missing(registered_table@, names, c);
                    assert(c == i as int) by {
                        if c < i {
                            assert(table_index(registered_table@, names[c]) is Some);
                        } else if c > i {
                            assert(table_index(registered_table@, names[i as int]) is Some);
                        }
                    }
                }
                return Err(PersistenceError::FieldNotFound(required_table_names[i].clone()));
            },
            Some(k) => {
                let ghost before = tables_of(needed@);
                needed.push(&registered_table[k]);
                proof {
                    assert(names[i as int] == required_table_names@[i as int]@);
                    assert(designated(registered_table@, names.take(i + 1))[i as int] == registered_table@[k as int]);
                    assert(*needed@[i as int] == registered_table@[k as int]);
                    assert(tables_of(needed@)[i as int] == registered_table@[k as int]);
                    assert(designated(registered_table@, names.take(i + 1)).drop_last() =~= designated(registered_table@, names.take(i as int)));
                    assert(tables_of(needed@).drop_last() =~= before);
                    let d = designated(registered_table@, names.take(i + 1));
                    assert forall|j: int| 0 <= j < i + 1 implies tables_of(needed@)[j] == d[j] by {
                        if j < i {
                            assert(tables_of(needed@).drop_last()[j] == tables_of(needed@)[j]);
                            assert(d.drop_last()[j] == d[j]);
                        }
                    }
                    assert(tables_of(needed@) =~= d);
                }
            },
        }
        i = i + 1;
    }
    proof {
        assert(names.take(names.len() as int) =~= names);
        assert(!exists|c: int| first_missing(registered_table@, names, c));
    }
    generate_join_query(needed.as_slice())
}

/// Tables `[a, b, c]` where `a` declares a relationship to `b` and `b` one to
/// `c` join as a chain: `a JOIN b ON ... JOIN c ON ...`, `c` joined to `b`.
pub proof fn lemma_chain_join(a: Table, b: Table, c: Table)
    requires
        relationship_to(a, b.name@) is Some,
        relationship_to(b, c.name@) is Some,
    ensures
        join_plan(seq![a, b, c]) == Ok::<Seq<char>, Failure>(
            a.name@ + " JOIN "@ + b.name@ + " ON "@ + join_condition(
                a.name@,
                b.name@,
                relationship_to(a, b.name@)->Some_0,
            ) + " JOIN "@ + c.name@ + " ON "@ + join_condition(
                b.name@,
                c.name@,
                relationship_to(b, c.name@)->Some_0,
            ),
        ),
{
    let ts = seq![a, b, c];
    assert(ts[0] == a && ts[1] == b && ts[2] == c);
    assert(linked_parent(ts, b.name@, 1) == Some(0int));
    assert(linked_parent(ts, c.name@, 2) == Some(1int));
    assert(join_prefix(ts, 1) == Ok::<Seq<char>, Failure>(a.name@));
    assert(join_prefix(ts, 2) == Ok::<Seq<char>, Failure>(a.name@ + join_clause(ts, 1)->Some_0));
    assert(join_prefix(ts, 3) == Ok::<Seq<char>, Failure>(
        a.name@ + join_clause(ts, 1)->Some_0 + join_clause(ts, 2)->Some_0,
    ));
    assert(a.name@ + join_clause(ts, 1)->Some_0 + join_clause(ts, 2)->Some_0 =~= a.name@ + " JOIN "@ + b.name@
        + " ON "@ + join_condition(a.name@, b.name@, relationship_to(a, b.name@)->Some_0) + " JOIN "@ + c.name@
        + " ON "@ + join_condition(b.name@, c.name@, relationship_to(b, c.name@)->Some_0));
}

/// Tables `[a, c]` where `a` declares no relationship to `c` have no join
/// plan: resolution fails naming `c` rather than leaving it out.
pub proof fn lemma_missing_link_fails(a: Table, c: Table)
    requires
        relationship_to(a, c.name@) is None,
    ensures
        join_plan(seq![a, c]) == Err::<Seq<char>, Failure>(Failure::JoinPathNotFound(c.name@)),
{
    let ts = seq![a, c];
    assert(ts[0] == a && ts[1] == c);
    assert(linked_parent(ts, c.name@, 0) is None);
    assert(linked_parent(ts, c.name@, 1) is None);
    assert(join_prefix(ts, 1) == Ok::<Seq<char>, Failure>(a.name@));
}

} // verus!
