//! The portal's record shapes, as received, and their decoding into the
//! contract model.
//!
//! A raw record carries dates, money, deadlines and the combined CPV field
//! as the portal's strings; decoding applies the field rules of
//! [`crate::decode`] to every such field and maps the rest across one to
//! one.

use vstd::prelude::*;

use crate::contract::{Contract, Cpv, Currency, Document, Entity};
use crate::dates::Date;
use crate::decode::{
    DecodeError, parse_announcement_id, parse_date, parse_euros, parse_execution_deadline,
    spec_parse_date, spec_parse_deadline, spec_parse_euros, spec_split_pipe, spec_trim,
    split_cpvs,
};

verus! {

/// An entity as the portal reports it.
pub struct BaseGovEntity {
    /// The portal's internal identifier.
    pub id: u64,
    /// The fiscal number of the entity.
    pub nif: String,
    /// The name or description of the entity.
    pub description: String,
}

/// A document as the portal reports it.
pub struct BaseGovDocument {
    /// The portal's internal identifier.
    pub id: u64,
    /// The file name of the document.
    pub description: String,
}

/// The portal's combined CPV field: pipe-separated code and designation
/// lists.
pub struct BaseGovCpv {
    pub code: String,
    pub designation: String,
}

impl From<BaseGovEntity> for Entity {
    fn from(e: BaseGovEntity) -> (r: Entity) {
        Entity { id: e.id, nif: e.nif, description: e.description }
    }
}

impl vstd::std_specs::convert::FromSpecImpl<BaseGovEntity> for Entity {
    open spec fn obeys_from_spec() -> bool {
        true
    }

    open spec fn from_spec(e: BaseGovEntity) -> Entity {
        Entity { id: e.id, nif: e.nif, description: e.description }
    }
}

impl From<BaseGovDocument> for Document {
    fn from(d: BaseGovDocument) -> (r: Document) {
        Document { id: d.id, description: d.description }
    }
}

impl vstd::std_specs::convert::FromSpecImpl<BaseGovDocument> for Document {
    open spec fn obeys_from_spec() -> bool {
        true
    }

    open spec fn from_spec(d: BaseGovDocument) -> Document {
        Document { id: d.id, description: d.description }
    }
}

/// A full contract record as the portal reports it, with the portal's own
/// string formats still in place.
pub struct BaseGovContract {
    pub id: u64,
    pub description: Option<String>,
    pub object_brief_description: String,
    pub contracting_procedure_type: String,
    pub contracting: Vec<BaseGovEntity>,
    pub contracted: Vec<BaseGovEntity>,
    pub cpv: BaseGovCpv,
    /// `DD-MM-YYYY`, when present.
    pub signing_date: Option<String>,
    /// `DD-MM-YYYY`.
    pub publication_date: String,
    /// For example `"5.611,10 €"`.
    pub initial_contractual_price: String,
    pub regime: Option<String>,
    pub contract_status: Option<String>,
    pub non_written_contract_justification_types: String,
    pub contract_types: String,
    /// For example `"90 dias"`.
    pub execution_deadline: String,
    pub execution_place: String,
    pub contract_fundamentation_type: String,
    pub contestants: Vec<BaseGovEntity>,
    pub invitees: Vec<BaseGovEntity>,
    pub documents: Vec<BaseGovDocument>,
    pub contracting_procedure_url: Option<String>,
    /// Negative means absent.
    pub announcement_id: i64,
    pub direct_award_fundamentation_type: String,
    pub observations: Option<String>,
    pub ccp: bool,
    pub end_of_contract_type: Option<String>,
    /// `DD-MM-YYYY`, when present.
    pub close_date: Option<String>,
    /// Money string, when present.
    pub total_effective_price: Option<String>,
    pub causes_deadline_change: Option<String>,
    pub causes_price_change: Option<String>,
}

/// The entity conversion, element-wise.
pub open spec fn entities_of(es: Seq<BaseGovEntity>) -> Seq<Entity> {
    es.map_values(|e: BaseGovEntity| Entity { id: e.id, nif: e.nif, description: e.description })
}

/// The document conversion, element-wise.
pub open spec fn documents_of(ds: Seq<BaseGovDocument>) -> Seq<Document> {
    ds.map_values(|d: BaseGovDocument| Document { id: d.id, description: d.description })
}

/// Whether a date string decodes.
pub open spec fn date_ok(s: Seq<char>) -> bool {
    spec_parse_date(s) is Some
}

/// Whether an optional date field decodes.
pub open spec fn opt_date_ok(s: Option<String>) -> bool {
    s is Some ==> date_ok(s.unwrap()@)
}

/// Whether a money string decodes to an amount that fits.
pub open spec fn euros_ok(s: Seq<char>) -> bool {
    &&& spec_parse_euros(s) is Some
    &&& i64::MIN <= spec_parse_euros(s).unwrap() <= i64::MAX
}

/// Whether an optional money field decodes.
pub open spec fn opt_euros_ok(s: Option<String>) -> bool {
    s is Some ==> euros_ok(s.unwrap()@)
}

/// Whether a deadline string decodes to a day count that fits.
pub open spec fn deadline_ok(s: Seq<char>) -> bool {
    &&& spec_parse_deadline(s) is Some
    &&& spec_parse_deadline(s).unwrap() <= usize::MAX
}

/// Whether the combined CPV field decodes: both sides empty, or the two
/// lists have equal length.
pub open spec fn cpvs_ok(code: Seq<char>, designation: Seq<char>) -> bool {
    ||| (code.len() == 0 && designation.len() == 0)
    ||| spec_split_pipe(code).len() == spec_split_pipe(designation).len()
}

/// Whether every decoded field of a raw record is well formed.
pub open spec fn raw_decodes(raw: BaseGovContract) -> bool {
    &&& date_ok(raw.publication_date@)
    &&& opt_date_ok(raw.signing_date)
    &&& opt_date_ok(raw.close_date)
    &&& euros_ok(raw.initial_contractual_price@)
    &&& opt_euros_ok(raw.total_effective_price)
    &&& deadline_ok(raw.execution_deadline@)
    &&& cpvs_ok(raw.cpv.code@, raw.cpv.designation@)
}

/// The error reported for a record that does not decode: date fields are
/// checked first, then money fields, then the deadline, then the CPV lists.
pub open spec fn spec_decode_error(raw: BaseGovContract) -> DecodeError {
    if !(date_ok(raw.publication_date@) && opt_date_ok(raw.signing_date) && opt_date_ok(
        raw.close_date,
    )) {
        DecodeError::InvalidDate
    } else if !(euros_ok(raw.initial_contractual_price@) && opt_euros_ok(
        raw.total_effective_price,
    )) {
        DecodeError::InvalidCurrency
    } else if !deadline_ok(raw.execution_deadline@) {
        DecodeError::InvalidDeadline
    } else {
        DecodeError::CpvMismatch
    }
}

/// The decoded optional date of a raw optional field that decodes.
pub open spec fn spec_opt_date(s: Option<String>) -> Option<Date> {
    if s is Some {
        Some(spec_parse_date(s.unwrap()@).unwrap())
    } else {
        None
    }
}

/// The decoded optional amount of a raw optional field that decodes.
pub open spec fn spec_opt_euros(s: Option<String>) -> Option<Currency> {
    if s is Some {
        Some(Currency(spec_parse_euros(s.unwrap()@).unwrap() as i64))
    } else {
        None
    }
}

/// Decode one optional date field.
fn decode_opt_date(s: &Option<String>) -> (r: Result<Option<Date>, DecodeError>)
    ensures
        r is Ok <==> opt_date_ok(*s),
        opt_date_ok(*s) ==> r == Ok::<Option<Date>, DecodeError>(spec_opt_date(*s)),
        !opt_date_ok(*s) ==> r == Err::<Option<Date>, DecodeError>(DecodeError::InvalidDate),
{
    match s {
        None => Ok(None),
        Some(t) => match parse_date(t.as_str()) {
            Some(d) => Ok(Some(d)),
            None => Err(DecodeError::InvalidDate),
        },
    }
}

/// Decode one optional money field.
fn decode_opt_euros(s: &Option<String>) -> (r: Result<Option<Currency>, DecodeError>)
    ensures
        r is Ok <==> opt_euros_ok(*s),
        opt_euros_ok(*s) ==> r == Ok::<Option<Currency>, DecodeError>(spec_opt_euros(*s)),
        !opt_euros_ok(*s) ==> r == Err::<Option<Currency>, DecodeError>(
            DecodeError::InvalidCurrency,
        ),
{
    match s {
        None => Ok(None),
        Some(t) => match parse_euros(t.as_str()) {
            Some(v) => Ok(Some(Currency(v))),
            None => Err(DecodeError::InvalidCurrency),
        },
    }
}

/// Convert the portal's entities, keeping ids and strings as they are.
fn convert_entities(es: &Vec<BaseGovEntity>) -> (r: Vec<Entity>)
    ensures
        r@ == entities_of(es@),
{
    let n = es.len();
    let mut r: Vec<Entity> = Vec::new();
    let mut i: usize = 0;
    while i < n
        invariant
            i <= n,
            n == es@.len(),
            r@ == entities_of(es@).take(i as int),
        decreases n - i,
    {
        let e = &es[i];
        r.push(Entity { id: e.id, nif: e.nif.clone(), description: e.description.clone() });
        proof {
            assert(r@ =~= entities_of(es@).take(i as int + 1));
        }
        i += 1;
    }
    proof {
        assert(entities_of(es@).take(n as int) =~= entities_of(es@));
    }
    r
}

/// Convert the portal's documents, keeping ids and strings as they are.
fn convert_documents(ds: &Vec<BaseGovDocument>) -> (r: Vec<Document>)
    ensures
        r@ == documents_of(ds@),
{
    let n = ds.len();
    let mut r: Vec<Document> = Vec::new();
    let mut i: usize = 0;
    while i < n
        invariant
            i <= n,
            n == ds@.len(),
            r@ == documents_of(ds@).take(i as int),
        decreases n - i,
    {
        let d = &ds[i];
        r.push(Document { id: d.id, description: d.description.clone() });
        proof {
            assert(r@ =~= documents_of(ds@).take(i as int + 1));
        }
        i += 1;
    }
    proof {
        assert(documents_of(ds@).take(n as int) =~= documents_of(ds@));
    }
    r
}

/// Decode a raw portal record into a contract, applying every field rule:
/// dates, money, the execution deadline, the announcement id and the
/// combined CPV lists. Any malformed field is an error and no partial
/// contract is produced.
pub fn decode_contract(raw: BaseGovContract) -> (r: Result<Contract, DecodeError>)
    ensures
        r is Ok <==> raw_decodes(raw),
        !raw_decodes(raw) ==> r == Err::<Contract, DecodeError>(spec_decode_error(raw)),
        raw_decodes(raw) ==> ({
            let c = r.unwrap();
            &&& c.id == raw.id
            &&& c.contracting_procedure_type == raw.contracting_procedure_type
            &&& c.publication_date == spec_parse_date(raw.publication_date@).unwrap()
            &&& c.signing_date == spec_opt_date(raw.signing_date)
            &&& c.ccp == raw.ccp
            &&& c.object_brief_description == raw.object_brief_description
            &&& c.initial_contractual_price == Currency(
                spec_parse_euros(raw.initial_contractual_price@).unwrap() as i64,
            )
            &&& c.description == raw.description
            &&& c.contracting@ == entities_of(raw.contracting@)
            &&& c.contracted@ == entities_of(raw.contracted@)
            &&& (raw.cpv.code@.len() == 0 && raw.cpv.designation@.len() == 0 ==> c.cpvs@.len()
                == 0)
            &&& (!(raw.cpv.code@.len() == 0 && raw.cpv.designation@.len() == 0) ==> c.cpvs@.len()
                == spec_split_pipe(raw.cpv.code@).len() && (forall|i: int|
                0 <= i < c.cpvs@.len() ==> (#[trigger] c.cpvs@[i]).code@ == spec_trim(
                    spec_split_pipe(raw.cpv.code@)[i],
                ) && c.cpvs@[i].designation@ == spec_trim(
                    spec_split_pipe(raw.cpv.designation@)[i],
                )))
            &&& c.regime == raw.regime
            &&& c.contract_status == raw.contract_status
            &&& c.non_written_contract_justification_types
                == raw.non_written_contract_justification_types
            &&& c.contract_types == raw.contract_types
            &&& c.execution_deadline_days as int == spec_parse_deadline(
                raw.execution_deadline@,
            ).unwrap()
            &&& c.execution_place == raw.execution_place
            &&& c.contract_fundamentation_type == raw.contract_fundamentation_type
            &&& c.contestants@ == entities_of(raw.contestants@)
            &&& c.invitees@ == entities_of(raw.invitees@)
            &&& c.documents@ == documents_of(raw.documents@)
            &&& c.contracting_procedure_url == raw.contracting_procedure_url
            &&& (raw.announcement_id >= 0 ==> c.announcement_id == Some(
                raw.announcement_id as usize,
            ))
            &&& (raw.announcement_id < 0 ==> c.announcement_id is None)
            &&& c.direct_award_fundamentation_type == raw.direct_award_fundamentation_type
            &&& c.observations == raw.observations
            &&& c.end_of_contract_type == raw.end_of_contract_type
            &&& c.close_date == spec_opt_date(raw.close_date)
            &&& c.total_effective_price == spec_opt_euros(raw.total_effective_price)
            &&& c.causes_deadline_change == raw.causes_deadline_change
            &&& c.causes_price_change == raw.causes_price_change
        }),
{
    let publication_date = match parse_date(raw.publication_date.as_str()) {
        Some(d) => d,
        None => {
            return Err(DecodeError::InvalidDate);
        },
    };
    let signing_date = match decode_opt_date(&raw.signing_date) {
        Ok(d) => d,
        Err(e) => {
            return Err(e);
        },
    };
    let close_date = match decode_opt_date(&raw.close_date) {
        Ok(d) => d,
        Err(e) => {
            return Err(e);
        },
    };
    let initial_contractual_price = match parse_euros(raw.initial_contractual_price.as_str()) {
        Some(v) => Currency(v),
        None => {
            return Err(DecodeError::InvalidCurrency);
        },
    };
    let total_effective_price = match decode_opt_euros(&raw.total_effective_price) {
        Ok(v) => v,
        Err(e) => {
            return Err(e);
        },
    };
    let execution_deadline_days = match parse_execution_deadline(raw.execution_deadline.as_str()) {
        Some(v) => v,
        None => {
            return Err(DecodeError::InvalidDeadline);
        },
    };
    let cpvs = match split_cpvs(raw.cpv.code.as_str(), raw.cpv.designation.as_str()) {
        Ok(v) => v,
        Err(e) => {
            return Err(e);
        },
    };
    let announcement_id = parse_announcement_id(raw.announcement_id);
    let contracting = convert_entities(&raw.contracting);
    let contracted = convert_entities(&raw.contracted);
    let contestants = convert_entities(&raw.contestants);
    let invitees = convert_entities(&raw.invitees);
    let documents = convert_documents(&raw.documents);
    Ok(
        Contract {
            id: raw.id,
            contracting_procedure_type: raw.contracting_procedure_type,
            publication_date,
            signing_date,
            ccp: raw.ccp,
            object_brief_description: raw.object_brief_description,
            initial_contractual_price,
            description: raw.description,
            contracting,
            contracted,
            cpvs,
            regime: raw.regime,
            contract_status: raw.contract_status,
            non_written_contract_justification_types:
                raw.non_written_contract_justification_types,
            contract_types: raw.contract_types,
            execution_deadline_days,
            execution_place: raw.execution_place,
            contract_fundamentation_type: raw.contract_fundamentation_type,
            contestants,
            invitees,
            documents,
            contracting_procedure_url: raw.contracting_procedure_url,
            announcement_id,
            direct_award_fundamentation_type: raw.direct_award_fundamentation_type,
            observations: raw.observations,
            end_of_contract_type: raw.end_of_contract_type,
            close_date,
            total_effective_price,
            causes_deadline_change: raw.causes_deadline_change,
            causes_price_change: raw.causes_price_change,
        },
    )
}

} // verus!
