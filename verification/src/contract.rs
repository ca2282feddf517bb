//! The contract data model: the full record kept in the relational store and
//! the lighter projection kept in the search index.

use vstd::prelude::*;

use crate::dates::Date;

verus! {

/// A monetary amount in integer cents: the last two decimal digits of the
/// underlying integer are the fractional part.
#[derive(Clone, Copy, PartialEq, Eq, Structural, Debug)]
pub struct Currency(pub i64);

/// A party to a contract, identified by the portal's entity id.
#[derive(Clone, Debug)]
pub struct Entity {
    /// The portal's internal identifier.
    pub id: u64,
    /// The entity's fiscal number.
    pub nif: String,
    /// The name or description of the entity.
    pub description: String,
}

/// A Common Procurement Vocabulary term.
#[derive(Clone, Debug)]
pub struct Cpv {
    pub code: String,
    pub designation: String,
}

/// A document attached to a contract.
#[derive(Clone, Debug)]
pub struct Document {
    /// The portal's internal identifier.
    pub id: u64,
    /// The file name of the document.
    pub description: String,
}

impl PartialEq for Entity {
    fn eq(&self, other: &Entity) -> (r: bool) {
        self.id == other.id && self.nif == other.nif && self.description == other.description
    }
}

impl vstd::std_specs::cmp::PartialEqSpecImpl for Entity {
    open spec fn obeys_eq_spec() -> bool {
        true
    }

    open spec fn eq_spec(&self, other: &Entity) -> bool {
        self.id == other.id && self.nif@ == other.nif@ && self.description@
            == other.description@
    }
}

impl PartialEq for Cpv {
    fn eq(&self, other: &Cpv) -> (r: bool) {
        self.code == other.code && self.designation == other.designation
    }
}

impl vstd::std_specs::cmp::PartialEqSpecImpl for Cpv {
    open spec fn obeys_eq_spec() -> bool {
        true
    }

    open spec fn eq_spec(&self, other: &Cpv) -> bool {
        self.code@ == other.code@ && self.designation@ == other.designation@
    }
}

impl PartialEq for Document {
    fn eq(&self, other: &Document) -> (r: bool) {
        self.id == other.id && self.description == other.description
    }
}

impl vstd::std_specs::cmp::PartialEqSpecImpl for Document {
    open spec fn obeys_eq_spec() -> bool {
        true
    }

    open spec fn eq_spec(&self, other: &Document) -> bool {
        self.id == other.id && self.description@ == other.description@
    }
}

/// A public contract as kept in the relational store.
#[derive(Clone, Debug)]
pub struct Contract {
    pub id: u64,
    pub contracting_procedure_type: String,
    pub publication_date: Date,
    pub signing_date: Option<Date>,
    pub ccp: bool,
    pub object_brief_description: String,
    pub initial_contractual_price: Currency,
    pub description: Option<String>,
    pub contracting: Vec<Entity>,
    pub contracted: Vec<Entity>,
    pub cpvs: Vec<Cpv>,
    pub regime: Option<String>,
    pub contract_status: Option<String>,
    pub non_written_contract_justification_types: String,
    pub contract_types: String,
    pub execution_deadline_days: usize,
    pub execution_place: String,
    pub contract_fundamentation_type: String,
    pub contestants: Vec<Entity>,
    pub invitees: Vec<Entity>,
    pub documents: Vec<Document>,
    pub contracting_procedure_url: Option<String>,
    pub announcement_id: Option<usize>,
    pub direct_award_fundamentation_type: String,
    pub observations: Option<String>,
    pub end_of_contract_type: Option<String>,
    pub close_date: Option<Date>,
    pub total_effective_price: Option<Currency>,
    pub causes_deadline_change: Option<String>,
    pub causes_price_change: Option<String>,
}

/// The projection of a contract kept in the search index: the fields worth
/// searching or filtering on, without the heavy narrative fields.
#[derive(Clone, Debug)]
pub struct SearchableContract {
    pub id: u64,
    pub contracting_procedure_type: String,
    pub publication_date: Date,
    pub signing_date: Option<Date>,
    pub object_brief_description: String,
    pub initial_contractual_price: Currency,
    pub contracting: Vec<Entity>,
    pub contracted: Vec<Entity>,
    pub cpvs: Vec<Cpv>,
    pub regime: Option<String>,
    pub contract_types: String,
    pub execution_place: String,
    pub contract_fundamentation_type: String,
    pub contestants: Vec<Entity>,
    pub invitees: Vec<Entity>,
    pub documents: Vec<Document>,
    pub contracting_procedure_url: Option<String>,
    pub announcement_id: Option<usize>,
}

/// What the projection of a contract holds, field by field.
pub open spec fn spec_project(c: Contract) -> SearchableContract {
    SearchableContract {
        id: c.id,
        contracting_procedure_type: c.contracting_procedure_type,
        publication_date: c.publication_date,
        signing_date: c.signing_date,
        object_brief_description: c.object_brief_description,
        initial_contractual_price: c.initial_contractual_price,
        contracting: c.contracting,
        contracted: c.contracted,
        cpvs: c.cpvs,
        regime: c.regime,
        contract_types: c.contract_types,
        execution_place: c.execution_place,
        contract_fundamentation_type: c.contract_fundamentation_type,
        contestants: c.contestants,
        invitees: c.invitees,
        documents: c.documents,
        contracting_procedure_url: c.contracting_procedure_url,
        announcement_id: c.announcement_id,
    }
}

impl From<Contract> for SearchableContract {
    /// Project a contract to its searchable shape, dropping the narrative
    /// fields.
    fn from(c: Contract) -> (r: SearchableContract) {
        SearchableContract {
            id: c.id,
            contracting_procedure_type: c.contracting_procedure_type,
            publication_date: c.publication_date,
            signing_date: c.signing_date,
            object_brief_description: c.object_brief_description,
            initial_contractual_price: c.initial_contractual_price,
            contracting: c.contracting,
            contracted: c.contracted,
            cpvs: c.cpvs,
            regime: c.regime,
            contract_types: c.contract_types,
            execution_place: c.execution_place,
            contract_fundamentation_type: c.contract_fundamentation_type,
            contestants: c.contestants,
            invitees: c.invitees,
            documents: c.documents,
            contracting_procedure_url: c.contracting_procedure_url,
            announcement_id: c.announcement_id,
        }
    }
}

impl vstd::std_specs::convert::FromSpecImpl<Contract> for SearchableContract {
    open spec fn obeys_from_spec() -> bool {
        true
    }

    open spec fn from_spec(c: Contract) -> SearchableContract {
        spec_project(c)
    }
}

/// The scalar columns of a contract's main relational row.
pub struct ContractMainRow {
    pub id: u64,
    pub contracting_procedure_type: String,
    pub publication_date: Date,
    pub signing_date: Option<Date>,
    pub ccp: bool,
    pub object_brief_description: String,
    pub initial_contractual_price: Currency,
    pub description: Option<String>,
    pub regime: Option<String>,
    pub contract_status: Option<String>,
    pub non_written_contract_justification_types: String,
    pub contract_types: String,
    pub execution_deadline_days: usize,
    pub execution_place: String,
    pub contract_fundamentation_type: String,
    pub contracting_procedure_url: Option<String>,
    pub announcement_id: Option<usize>,
    pub direct_award_fundamentation_type: String,
    pub observations: Option<String>,
    pub end_of_contract_type: Option<String>,
    pub close_date: Option<Date>,
    pub total_effective_price: Option<Currency>,
    pub causes_deadline_change: Option<String>,
    pub causes_price_change: Option<String>,
}

/// Rebuild a contract from its main row and its fetched relations. This is
/// the assembly half of a by-id lookup; running the queries is I/O and stays
/// outside the library.
pub fn assemble_contract(
    main: ContractMainRow,
    contracting: Vec<Entity>,
    contracted: Vec<Entity>,
    contestants: Vec<Entity>,
    invitees: Vec<Entity>,
    documents: Vec<Document>,
    cpvs: Vec<Cpv>,
) -> (c: Contract)
    ensures
        c == (Contract {
            id: main.id,
            contracting_procedure_type: main.contracting_procedure_type,
            publication_date: main.publication_date,
            signing_date: main.signing_date,
            ccp: main.ccp,
            object_brief_description: main.object_brief_description,
            initial_contractual_price: main.initial_contractual_price,
            description: main.description,
            contracting,
            contracted,
            cpvs,
            regime: main.regime,
            contract_status: main.contract_status,
            non_written_contract_justification_types:
                main.non_written_contract_justification_types,
            contract_types: main.contract_types,
            execution_deadline_days: main.execution_deadline_days,
            execution_place: main.execution_place,
            contract_fundamentation_type: main.contract_fundamentation_type,
            contestants,
            invitees,
            documents,
            contracting_procedure_url: main.contracting_procedure_url,
            announcement_id: main.announcement_id,
            direct_award_fundamentation_type: main.direct_award_fundamentation_type,
            observations: main.observations,
            end_of_contract_type: main.end_of_contract_type,
            close_date: main.close_date,
            total_effective_price: main.total_effective_price,
            causes_deadline_change: main.causes_deadline_change,
            causes_price_change: main.causes_price_change,
        }),
{
    Contract {
        id: main.id,
        contracting_procedure_type: main.contracting_procedure_type,
        publication_date: main.publication_date,
        signing_date: main.signing_date,
        ccp: main.ccp,
        object_brief_description: main.object_brief_description,
        initial_contractual_price: main.initial_contractual_price,
        description: main.description,
        contracting,
        contracted,
        cpvs,
        regime: main.regime,
        contract_status: main.contract_status,
        non_written_contract_justification_types: main.non_written_contract_justification_types,
        contract_types: main.contract_types,
        execution_deadline_days: main.execution_deadline_days,
        execution_place: main.execution_place,
        contract_fundamentation_type: main.contract_fundamentation_type,
        contestants,
        invitees,
        documents,
        contracting_procedure_url: main.contracting_procedure_url,
        announcement_id: main.announcement_id,
        direct_award_fundamentation_type: main.direct_award_fundamentation_type,
        observations: main.observations,
        end_of_contract_type: main.end_of_contract_type,
        close_date: main.close_date,
        total_effective_price: main.total_effective_price,
        causes_deadline_change: main.causes_deadline_change,
        causes_price_change: main.causes_price_change,
    }
}

} // verus!

