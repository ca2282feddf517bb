use contratos::contract::{
    assemble_contract, Contract, ContractMainRow, Cpv, Currency, Document, Entity,
    SearchableContract,
};
use contratos::dates::Date;
use contratos::storeplan::contract_write_plan;

fn entity(id: u64, nif: &str, description: &str) -> Entity {
    Entity { id, nif: nif.to_string(), description: description.to_string() }
}

fn sample_contract() -> Contract {
    Contract {
        id: 77,
        contracting_procedure_type: "Direct Award".to_string(),
        publication_date: Date { year: 2023, month: 1, day: 15 },
        signing_date: Some(Date { year: 2023, month: 2, day: 1 }),
        ccp: true,
        object_brief_description: "Software".to_string(),
        initial_contractual_price: Currency(100000),
        description: Some("Detailed".to_string()),
        contracting: vec![entity(1, "111", "Buyer")],
        contracted: vec![entity(2, "222", "Seller")],
        cpvs: vec![Cpv { code: "72000000".to_string(), designation: "IT".to_string() }],
        regime: Some("Public".to_string()),
        contract_status: None,
        non_written_contract_justification_types: "".to_string(),
        contract_types: "Service".to_string(),
        execution_deadline_days: 90,
        execution_place: "Lisbon".to_string(),
        contract_fundamentation_type: "Legal".to_string(),
        contestants: vec![entity(3, "333", "Bidder")],
        invitees: vec![entity(4, "444", "Invited")],
        documents: vec![Document { id: 9, description: "spec.pdf".to_string() }],
        contracting_procedure_url: None,
        announcement_id: Some(12345),
        direct_award_fundamentation_type: "Urgency".to_string(),
        observations: None,
        end_of_contract_type: None,
        close_date: None,
        total_effective_price: Some(Currency(95000)),
        causes_deadline_change: None,
        causes_price_change: None,
    }
}

#[test]
fn plan_lists_every_row_once() {
    let c = sample_contract();
    let plan = contract_write_plan(&c);

    assert_eq!(plan.cpv_rows, c.cpvs);
    assert_eq!(plan.document_rows, c.documents);
    assert_eq!(
        plan.entity_rows,
        vec![
            (1, "111".to_string()),
            (2, "222".to_string()),
            (3, "333".to_string()),
            (4, "444".to_string()),
        ]
    );

    assert_eq!(plan.contracting_links.len(), 1);
    assert_eq!(plan.contracting_links[0].contract_id, 77);
    assert_eq!(plan.contracting_links[0].entity_id, 1);
    assert_eq!(plan.contracting_links[0].description, "Buyer");
    assert_eq!(plan.contracted_links[0].entity_id, 2);
    assert_eq!(plan.contestant_links[0].entity_id, 3);
    assert_eq!(plan.invitee_links[0].entity_id, 4);

    assert_eq!(plan.document_links, vec![(77, 9)]);
    assert_eq!(plan.cpv_links, vec![(77, "72000000".to_string())]);
}

#[test]
fn plan_is_deterministic() {
    let c = sample_contract();
    let first = contract_write_plan(&c);
    let second = contract_write_plan(&c);
    assert_eq!(first.entity_rows, second.entity_rows);
    assert_eq!(first.cpv_links, second.cpv_links);
    assert_eq!(first.document_links, second.document_links);
}

#[test]
fn projection_keeps_search_fields_and_drops_narrative() {
    let c = sample_contract();
    let p = SearchableContract::from(c.clone());
    assert_eq!(p.id, c.id);
    assert_eq!(p.publication_date, c.publication_date);
    assert_eq!(p.initial_contractual_price, c.initial_contractual_price);
    assert_eq!(p.contracting, c.contracting);
    assert_eq!(p.cpvs, c.cpvs);
    assert_eq!(p.announcement_id, c.announcement_id);
}

#[test]
fn assemble_rebuilds_the_contract_from_rows() {
    let main = ContractMainRow {
        id: 77,
        contracting_procedure_type: "Direct Award".to_string(),
        publication_date: Date { year: 2023, month: 1, day: 15 },
        signing_date: None,
        ccp: false,
        object_brief_description: "Software".to_string(),
        initial_contractual_price: Currency(100000),
        description: None,
        regime: None,
        contract_status: None,
        non_written_contract_justification_types: "".to_string(),
        contract_types: "Service".to_string(),
        execution_deadline_days: 90,
        execution_place: "Lisbon".to_string(),
        contract_fundamentation_type: "Legal".to_string(),
        contracting_procedure_url: None,
        announcement_id: None,
        direct_award_fundamentation_type: "Urgency".to_string(),
        observations: None,
        end_of_contract_type: None,
        close_date: None,
        total_effective_price: None,
        causes_deadline_change: None,
        causes_price_change: None,
    };
    let c = assemble_contract(
        main,
        vec![entity(1, "111", "Buyer")],
        vec![entity(2, "222", "Seller")],
        vec![],
        vec![],
        vec![Document { id: 9, description: "spec.pdf".to_string() }],
        vec![Cpv { code: "72000000".to_string(), designation: "IT".to_string() }],
    );
    assert_eq!(c.id, 77);
    assert_eq!(c.contracting.len(), 1);
    assert_eq!(c.contracting[0].nif, "111");
    assert_eq!(c.contracted[0].description, "Seller");
    assert_eq!(c.documents[0].id, 9);
    assert_eq!(c.cpvs[0].code, "72000000");
    assert_eq!(c.execution_deadline_days, 90);
}
