//! The dual-store write path.
//!
//! Persisting a contract means: upsert its vocabulary terms, entities and
//! documents, upsert the main row, insert the role and attachment links —
//! every step keyed and conflict-free — then upsert the search-index
//! projection and update the ledger. The library computes the exact rows of
//! that plan and states the effect of the whole write on an abstract picture
//! of both stores; because every step inserts only where its key is absent,
//! the write is idempotent, which is what makes retries and re-runs safe.

use vstd::prelude::*;

use crate::contract::{Contract, Cpv, Document, Entity, SearchableContract, spec_project};
use crate::progress::{LedgerState, spec_update, lemma_update_idempotent};

verus! {

/// A row linking a contract to an entity in one role, with the role-specific
/// description.
pub struct PartyLink {
    pub contract_id: u64,
    pub entity_id: u64,
    pub description: String,
}

/// Every row that persisting one contract writes, besides the main row and
/// the search-index document (which are the contract itself and its
/// projection).
pub struct ContractWritePlan {
    /// Vocabulary terms, upserted by code.
    pub cpv_rows: Vec<Cpv>,
    /// `(id, fiscal number)` pairs for every referenced entity, upserted by id.
    pub entity_rows: Vec<(u64, String)>,
    /// Documents, upserted by id.
    pub document_rows: Vec<Document>,
    /// Role links, inserted where absent.
    pub contracting_links: Vec<PartyLink>,
    pub contracted_links: Vec<PartyLink>,
    pub contestant_links: Vec<PartyLink>,
    pub invitee_links: Vec<PartyLink>,
    /// `(contract id, document id)` links.
    pub document_links: Vec<(u64, u64)>,
    /// `(contract id, CPV code)` links.
    pub cpv_links: Vec<(u64, String)>,
}

/// Every entity a contract references, over all four roles.
pub open spec fn all_parties(c: Contract) -> Seq<Entity> {
    c.contracting@ + c.contracted@ + c.contestants@ + c.invitees@
}

/// The `(id, nif)` rows of the plan.
pub open spec fn spec_entity_rows(c: Contract) -> Seq<(u64, String)> {
    all_parties(c).map_values(|e: Entity| (e.id, e.nif))
}

/// The role links for one role's entity list.
pub open spec fn spec_party_links(cid: u64, es: Seq<Entity>) -> Seq<PartyLink> {
    es.map_values(|e: Entity| PartyLink { contract_id: cid, entity_id: e.id, description: e.description })
}

/// The `(contract id, document id)` links.
pub open spec fn spec_document_links(c: Contract) -> Seq<(u64, u64)> {
    c.documents@.map_values(|d: Document| (c.id, d.id))
}

/// The `(contract id, CPV code)` links.
pub open spec fn spec_cpv_links(c: Contract) -> Seq<(u64, String)> {
    c.cpvs@.map_values(|v: Cpv| (c.id, v.code))
}

/// Compute the rows that persisting `c` writes.
pub fn contract_write_plan(c: &Contract) -> (p: ContractWritePlan)
    ensures
        p.cpv_rows@ == c.cpvs@,
        p.entity_rows@ == spec_entity_rows(*c),
        p.document_rows@ == c.documents@,
        p.contracting_links@ == spec_party_links(c.id, c.contracting@),
        p.contracted_links@ == spec_party_links(c.id, c.contracted@),
        p.contestant_links@ == spec_party_links(c.id, c.contestants@),
        p.invitee_links@ == spec_party_links(c.id, c.invitees@),
        p.document_links@ == spec_document_links(*c),
        p.cpv_links@ == spec_cpv_links(*c),
{
    let mut entity_rows: Vec<(u64, String)> = Vec::new();
    append_entity_rows(&mut entity_rows, &c.contracting);
    append_entity_rows(&mut entity_rows, &c.contracted);
    append_entity_rows(&mut entity_rows, &c.contestants);
    append_entity_rows(&mut entity_rows, &c.invitees);
    proof {
        assert(entity_rows@ =~= spec_entity_rows(*c)) by {
            assert(all_parties(*c).map_values(|e: Entity| (e.id, e.nif)) =~= c.contracting@.map_values(
                |e: Entity| (e.id, e.nif),
            ) + c.contracted@.map_values(|e: Entity| (e.id, e.nif)) + c.contestants@.map_values(
                |e: Entity| (e.id, e.nif),
            ) + c.invitees@.map_values(|e: Entity| (e.id, e.nif)));
        }
    }
    ContractWritePlan {
        cpv_rows: clone_cpvs(&c.cpvs),
        entity_rows,
        document_rows: clone_documents(&c.documents),
        contracting_links: party_links(c.id, &c.contracting),
        contracted_links: party_links(c.id, &c.contracted),
        contestant_links: party_links(c.id, &c.contestants),
        invitee_links: party_links(c.id, &c.invitees),
        document_links: document_links(c.id, &c.documents),
        cpv_links: cpv_links(c.id, &c.cpvs),
    }
}

fn clone_cpvs(src: &Vec<Cpv>) -> (r: Vec<Cpv>)
    ensures
        r@ == src@,
{
    let n = src.len();
    let mut r: Vec<Cpv> = Vec::new();
    let mut i: usize = 0;
    while i < n
        invariant
            i <= n,
            n == src@.len(),
            r@ == src@.take(i as int),
        decreases n - i,
    {
        let x = &src[i];
        r.push(Cpv { code: x.code.clone(), designation: x.designation.clone() });
        proof {
            assert(r@ =~= src@.take(i + 1));
        }
        i += 1;
    }
    proof {
        assert(src@.take(n as int) =~= src@);
    }
    r
}

fn clone_documents(src: &Vec<Document>) -> (r: Vec<Document>)
    ensures
        r@ == src@,
{
    let n = src.len();
    let mut r: Vec<Document> = Vec::new();
    let mut i: usize = 0;
    while i < n
        invariant
            i <= n,
            n == src@.len(),
            r@ == src@.take(i as int),
        decreases n - i,
    {
        let x = &src[i];
        r.push(Document { id: x.id, description: x.description.clone() });
        proof {
            assert(r@ =~= src@.take(i + 1));
        }
        i += 1;
    }
    proof {
        assert(src@.take(n as int) =~= src@);
    }
    r
}

fn append_entity_rows(rows: &mut Vec<(u64, String)>, es: &Vec<Entity>)
    ensures
        final(rows)@ == old(rows)@ + es@.map_values(|e: Entity| (e.id, e.nif)),
{
    let n = es.len();
    let mut i: usize = 0;
    while i < n
        invariant
            i <= n,
            n == es@.len(),
            rows@ == old(rows)@ + es@.map_values(|e: Entity| (e.id, e.nif)).take(i as int),
        decreases n - i,
    {
        let e = &es[i];
        rows.push((e.id, e.nif.clone()));
        proof {
            assert(rows@ =~= old(rows)@ + es@.map_values(|e: Entity| (e.id, e.nif)).take(
                i + 1,
            ));
        }
        i += 1;
    }
    proof {
        assert(old(rows)@ + es@.map_values(|e: Entity| (e.id, e.nif)).take(n as int) =~= old(
            rows,
        )@ + es@.map_values(|e: Entity| (e.id, e.nif)));
    }
}

fn party_links(cid: u64, es: &Vec<Entity>) -> (r: Vec<PartyLink>)
    ensures
        r@ == spec_party_links(cid, es@),
{
    let n = es.len();
    let mut r: Vec<PartyLink> = Vec::new();
    let mut i: usize = 0;
    while i < n
        invariant
            i <= n,
            n == es@.len(),
            r@ == spec_party_links(cid, es@).take(i as int),
        decreases n - i,
    {
        let e = &es[i];
        r.push(
            PartyLink { contract_id: cid, entity_id: e.id, description: e.description.clone() },
        );
        proof {
            assert(r@ =~= spec_party_links(cid, es@).take(i + 1));
        }
        i += 1;
    }
    proof {
        assert(spec_party_links(cid, es@).take(n as int) =~= spec_party_links(cid, es@));
    }
    r
}

fn document_links(cid: u64, ds: &Vec<Document>) -> (r: Vec<(u64, u64)>)
    ensures
        r@ == ds@.map_values(|d: Document| (cid, d.id)),
{
    let n = ds.len();
    let mut r: Vec<(u64, u64)> = Vec::new();
    let mut i: usize = 0;
    while i < n
        invariant
            i <= n,
            n == ds@.len(),
            r@ == ds@.map_values(|d: Document| (cid, d.id)).take(i as int),
        decreases n - i,
    {
        r.push((cid, ds[i].id));
        proof {
            assert(r@ =~= ds@.map_values(|d: Document| (cid, d.id)).take(i + 1));
        }
        i += 1;
    }
    proof {
        assert(ds@.map_values(|d: Document| (cid, d.id)).take(n as int) =~= ds@.map_values(
            |d: Document| (cid, d.id),
        ));
    }
    r
}

fn cpv_links(cid: u64, vs: &Vec<Cpv>) -> (r: Vec<(u64, String)>)
    ensures
        r@ == vs@.map_values(|v: Cpv| (cid, v.code)),
{
    let n = vs.len();
    let mut r: Vec<(u64, String)> = Vec::new();
    let mut i: usize = 0;
    while i < n
        invariant
            i <= n,
            n == vs@.len(),
            r@ == vs@.map_values(|v: Cpv| (cid, v.code)).take(i as int),
        decreases n - i,
    {
        r.push((cid, vs[i].code.clone()));
        proof {
            assert(r@ =~= vs@.map_values(|v: Cpv| (cid, v.code)).take(i + 1));
        }
        i += 1;
    }
    proof {
        assert(vs@.map_values(|v: Cpv| (cid, v.code)).take(n as int) =~= vs@.map_values(
            |v: Cpv| (cid, v.code),
        ));
    }
    r
}

/// Insert-if-absent, the effect of an upsert with do-nothing conflict
/// handling.
pub open spec fn upsert<K, V>(m: Map<K, V>, k: K, v: V) -> Map<K, V> {
    if m.dom().contains(k) {
        m
    } else {
        m.insert(k, v)
    }
}

/// Insert-if-absent of a whole row list, front to back.
pub open spec fn upsert_all<K, V>(m: Map<K, V>, rows: Seq<(K, V)>) -> Map<K, V>
    decreases rows.len(),
{
    if rows.len() == 0 {
        m
    } else {
        upsert_all(upsert(m, rows[0].0, rows[0].1), rows.drop_first())
    }
}

/// After `upsert_all`, a key is present iff it was present or some row
/// carries it.
pub proof fn lemma_upsert_all_dom<K, V>(m: Map<K, V>, rows: Seq<(K, V)>)
    ensures
        forall|k: K|
            #[trigger] upsert_all(m, rows).dom().contains(k) <==> (m.dom().contains(k) || exists|
                i: int,
            | 0 <= i < rows.len() && (#[trigger] rows[i]).0 == k),
    decreases rows.len(),
{
    if rows.len() > 0 {
        let m1 = upsert(m, rows[0].0, rows[0].1);
        let rest = rows.drop_first();
        lemma_upsert_all_dom(m1, rest);
        assert(upsert_all(m, rows) == upsert_all(m1, rest));
        assert forall|k: K| #[trigger] upsert_all(m, rows).dom().contains(k) implies (
        m.dom().contains(k) || exists|i: int| 0 <= i < rows.len() && (#[trigger] rows[i]).0
            == k) by {
            assert(upsert_all(m1, rest).dom().contains(k));
            if !m.dom().contains(k) {
                if k == rows[0].0 {
                    assert((#[trigger] rows[0]).0 == k);
                } else {
                    assert(!m1.dom().contains(k));
                    let i = choose|i: int|
                        0 <= i < rest.len() && (#[trigger] rest[i]).0 == k;
                    assert(rest[i] == rows[i + 1]);
                    assert((#[trigger] rows[i + 1]).0 == k);
                }
            }
        }
        assert forall|k: K|
            (m.dom().contains(k) || exists|i: int|
                0 <= i < rows.len() && (#[trigger] rows[i]).0 == k) implies #[trigger] upsert_all(
            m,
            rows,
        ).dom().contains(k) by {
            if m.dom().contains(k) {
                assert(m1.dom().contains(k));
                assert(upsert_all(m1, rest).dom().contains(k));
            } else {
                let i = choose|i: int| 0 <= i < rows.len() && (#[trigger] rows[i]).0 == k;
                if i == 0 {
                    assert(m1.dom().contains(k));
                    assert(upsert_all(m1, rest).dom().contains(k));
                } else {
                    assert(rest[i - 1] == rows[i]);
                    assert((#[trigger] rest[i - 1]).0 == k);
                    assert(upsert_all(m1, rest).dom().contains(k));
                }
            }
        }
    }
}

/// `upsert_all` of rows whose keys are all present changes nothing.
pub proof fn lemma_upsert_all_noop<K, V>(m: Map<K, V>, rows: Seq<(K, V)>)
    requires
        forall|i: int| 0 <= i < rows.len() ==> m.dom().contains((#[trigger] rows[i]).0),
    ensures
        upsert_all(m, rows) == m,
    decreases rows.len(),
{
    if rows.len() > 0 {
        assert(m.dom().contains((#[trigger] rows[0]).0));
        assert forall|i: int|
            0 <= i < rows.drop_first().len() implies m.dom().contains(
            (#[trigger] rows.drop_first()[i]).0,
        ) by {
            assert(rows.drop_first()[i] == rows[i + 1]);
            assert(m.dom().contains((#[trigger] rows[i + 1]).0));
        }
        lemma_upsert_all_noop(m, rows.drop_first());
    }
}

/// Law: writing the same row list twice is the same as writing it once.
pub proof fn lemma_upsert_all_idempotent<K, V>(m: Map<K, V>, rows: Seq<(K, V)>)
    ensures
        upsert_all(upsert_all(m, rows), rows) == upsert_all(m, rows),
{
    lemma_upsert_all_dom(m, rows);
    assert forall|i: int|
        0 <= i < rows.len() implies upsert_all(m, rows).dom().contains(
        (#[trigger] rows[i]).0,
    ) by {
        assert(0 <= i < rows.len() && (#[trigger] rows[i]).0 == rows[i].0);
    }
    lemma_upsert_all_noop(upsert_all(m, rows), rows);
}

/// An abstract picture of the relational store: each table as a map from its
/// key to its payload, with strings taken as character sequences.
pub struct RelationalState {
    /// Vocabulary terms: code to designation.
    pub cpvs: Map<Seq<char>, Seq<char>>,
    /// Entities: id to fiscal number.
    pub entities: Map<u64, Seq<char>>,
    /// Documents: id to description.
    pub documents: Map<u64, Seq<char>>,
    /// Main rows: contract id to the full record.
    pub contracts: Map<u64, Contract>,
    /// Role links: (contract, entity) to the role description.
    pub contracting: Map<(u64, u64), Seq<char>>,
    pub contracted: Map<(u64, u64), Seq<char>>,
    pub contestants: Map<(u64, u64), Seq<char>>,
    pub invitees: Map<(u64, u64), Seq<char>>,
    /// Attachment links.
    pub contract_documents: Set<(u64, u64)>,
    /// Vocabulary links.
    pub contract_cpvs: Set<(u64, Seq<char>)>,
}

/// The view-level rows of the plan, used to state the write's effect.
pub open spec fn cpv_rows_v(c: Contract) -> Seq<(Seq<char>, Seq<char>)> {
    c.cpvs@.map_values(|v: Cpv| (v.code@, v.designation@))
}

pub open spec fn entity_rows_v(c: Contract) -> Seq<(u64, Seq<char>)> {
    all_parties(c).map_values(|e: Entity| (e.id, e.nif@))
}

pub open spec fn document_rows_v(c: Contract) -> Seq<(u64, Seq<char>)> {
    c.documents@.map_values(|d: Document| (d.id, d.description@))
}

pub open spec fn party_links_v(cid: u64, es: Seq<Entity>) -> Seq<((u64, u64), Seq<char>)> {
    es.map_values(|e: Entity| ((cid, e.id), e.description@))
}

pub open spec fn document_links_set(c: Contract) -> Set<(u64, u64)> {
    spec_document_links(c).to_set()
}

pub open spec fn cpv_links_set(c: Contract) -> Set<(u64, Seq<char>)> {
    c.cpvs@.map_values(|v: Cpv| (c.id, v.code@)).to_set()
}

/// The effect of the relational transaction that persists `c`: every row of
/// the plan upserted into its table, inserting only where the key is absent.
pub open spec fn spec_insert_contract(s: RelationalState, c: Contract) -> RelationalState {
    RelationalState {
        cpvs: upsert_all(s.cpvs, cpv_rows_v(c)),
        entities: upsert_all(s.entities, entity_rows_v(c)),
        documents: upsert_all(s.documents, document_rows_v(c)),
        contracts: upsert(s.contracts, c.id, c),
        contracting: upsert_all(s.contracting, party_links_v(c.id, c.contracting@)),
        contracted: upsert_all(s.contracted, party_links_v(c.id, c.contracted@)),
        contestants: upsert_all(s.contestants, party_links_v(c.id, c.contestants@)),
        invitees: upsert_all(s.invitees, party_links_v(c.id, c.invitees@)),
        contract_documents: s.contract_documents.union(document_links_set(c)),
        contract_cpvs: s.contract_cpvs.union(cpv_links_set(c)),
    }
}

/// An abstract picture of everything `save_contract` touches: the relational
/// store, the search index, and the ledger.
pub struct DualStoreState {
    pub relational: RelationalState,
    /// The search index: contract id to its indexed projection.
    pub index: Map<u64, SearchableContract>,
    pub ledger: LedgerState,
}

/// The effect of one successful `save_contract(c, page, contracts_per_page)`:
/// the relational transaction commits, then the projection is upserted into
/// the index, then the ledger records the contract.
pub open spec fn spec_save_contract(
    d: DualStoreState,
    c: Contract,
    page: int,
    contracts_per_page: int,
) -> DualStoreState {
    DualStoreState {
        relational: spec_insert_contract(d.relational, c),
        index: d.index.insert(c.id, spec_project(c)),
        ledger: spec_update(d.ledger, page, contracts_per_page, c.id as int),
    }
}

/// Law (idempotent writes): the relational transaction writes only where its
/// keys are absent, so running it twice for the same contract equals running
/// it once.
pub proof fn lemma_insert_contract_idempotent(s: RelationalState, c: Contract)
    ensures
        spec_insert_contract(spec_insert_contract(s, c), c) == spec_insert_contract(s, c),
{
    let s1 = spec_insert_contract(s, c);
    lemma_upsert_all_idempotent(s.cpvs, cpv_rows_v(c));
    lemma_upsert_all_idempotent(s.entities, entity_rows_v(c));
    lemma_upsert_all_idempotent(s.documents, document_rows_v(c));
    lemma_upsert_all_idempotent(s.contracting, party_links_v(c.id, c.contracting@));
    lemma_upsert_all_idempotent(s.contracted, party_links_v(c.id, c.contracted@));
    lemma_upsert_all_idempotent(s.contestants, party_links_v(c.id, c.contestants@));
    lemma_upsert_all_idempotent(s.invitees, party_links_v(c.id, c.invitees@));
    assert(s1.contract_documents.union(document_links_set(c)) =~= s1.contract_documents);
    assert(s1.contract_cpvs.union(cpv_links_set(c)) =~= s1.contract_cpvs);
}

/// Law (saving twice changes nothing more): the whole dual-store write —
/// relational transaction, index upsert, ledger update — is idempotent, so
/// retries and re-runs over the same contract are safe.
pub proof fn lemma_save_contract_idempotent(
    d: DualStoreState,
    c: Contract,
    page: int,
    contracts_per_page: int,
)
    ensures
        spec_save_contract(
            spec_save_contract(d, c, page, contracts_per_page),
            c,
            page,
            contracts_per_page,
        ) == spec_save_contract(d, c, page, contracts_per_page),
{
    let d1 = spec_save_contract(d, c, page, contracts_per_page);
    lemma_insert_contract_idempotent(d.relational, c);
    assert(d1.index.insert(c.id, spec_project(c)) =~= d1.index);
    lemma_update_idempotent(d.ledger, page, contracts_per_page, c.id as int);
}

} // verus!
