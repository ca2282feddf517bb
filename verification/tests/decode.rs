use contratos::basegov::{
    decode_contract, BaseGovContract, BaseGovCpv, BaseGovDocument, BaseGovEntity,
};
use contratos::contract::Cpv;
use contratos::dates::Date;
use contratos::decode::{
    migrate_contract_cpv, parse_announcement_id, parse_date, parse_euros,
    parse_execution_deadline, split_cpvs, trim_str, DecodeError,
};

#[test]
fn currency_round_trip() {
    assert_eq!(parse_euros("5.611,10 €"), Some(561110));
    assert_eq!(parse_euros("-5,00 €"), Some(-500));
}

#[test]
fn currency_plain_and_padded() {
    assert_eq!(parse_euros("0,00 €"), Some(0));
    assert_eq!(parse_euros("  1.234.567,89 €  "), Some(123456789));
    assert_eq!(parse_euros("42"), Some(42));
    assert_eq!(parse_euros("+7,50 €"), Some(750));
}

#[test]
fn currency_rejects_malformed() {
    assert_eq!(parse_euros(""), None);
    assert_eq!(parse_euros("abc €"), None);
    assert_eq!(parse_euros("1,2,3x"), None);
    assert_eq!(parse_euros(" €"), None);
    // an amount too large for 64 bits
    assert_eq!(parse_euros("99.999.999.999.999.999.999,00 €"), None);
}

#[test]
fn date_round_trip() {
    assert_eq!(
        parse_date("15-01-2023"),
        Some(Date { year: 2023, month: 1, day: 15 })
    );
}

#[test]
fn date_rejects_malformed() {
    assert_eq!(parse_date("31-02-2023"), None);
    assert_eq!(parse_date("2023-01-15"), None);
    assert_eq!(parse_date("1-01-2023"), None);
    assert_eq!(parse_date("00-01-2023"), None);
    assert_eq!(parse_date("29-02-2023"), None);
    assert_eq!(
        parse_date("29-02-2024"),
        Some(Date { year: 2024, month: 2, day: 29 })
    );
}

#[test]
fn deadline_parses_days() {
    assert_eq!(parse_execution_deadline("90 dias"), Some(90));
    assert_eq!(parse_execution_deadline("  365 dias "), Some(365));
    assert_eq!(parse_execution_deadline("0 dias"), Some(0));
    assert_eq!(parse_execution_deadline("17"), Some(17));
    assert_eq!(parse_execution_deadline("x dias"), None);
    assert_eq!(parse_execution_deadline(""), None);
    assert_eq!(parse_execution_deadline("-5 dias"), None);
}

#[test]
fn announcement_id_negative_means_absent() {
    assert_eq!(parse_announcement_id(12345), Some(12345));
    assert_eq!(parse_announcement_id(0), Some(0));
    assert_eq!(parse_announcement_id(-1), None);
}

#[test]
fn cpv_split_pairs_up() {
    let got = split_cpvs("A | B", "X | Y").unwrap();
    assert_eq!(
        got,
        vec![
            Cpv { code: "A".to_string(), designation: "X".to_string() },
            Cpv { code: "B".to_string(), designation: "Y".to_string() },
        ]
    );
}

#[test]
fn cpv_split_mismatch_is_error() {
    assert_eq!(
        split_cpvs("A | B", "X"),
        Err(DecodeError::CpvMismatch)
    );
    assert_eq!(
        split_cpvs("A", "X | Y"),
        Err(DecodeError::CpvMismatch)
    );
}

#[test]
fn cpv_split_both_empty_is_empty() {
    assert_eq!(split_cpvs("", ""), Ok(vec![]));
}

#[test]
fn cpv_split_trims_parts() {
    let got = split_cpvs("48000000-8", "  Pacotes de software  ").unwrap();
    assert_eq!(
        got,
        vec![Cpv {
            code: "48000000-8".to_string(),
            designation: "Pacotes de software".to_string(),
        }]
    );
}

#[test]
fn migrate_cpv_skips_empty_and_truncates() {
    let got = migrate_contract_cpv("A |  | C | D", "X | Y | Z");
    assert_eq!(
        got,
        vec![
            Cpv { code: "A".to_string(), designation: "X".to_string() },
            Cpv { code: "C".to_string(), designation: "Z".to_string() },
        ]
    );
}

#[test]
fn trim_removes_surrounding_whitespace() {
    assert_eq!(trim_str("  x y\t\n"), "x y");
    assert_eq!(trim_str(""), "");
    assert_eq!(trim_str("   "), "");
}

fn sample_raw() -> BaseGovContract {
    BaseGovContract {
        id: 1,
        description: Some("Detailed description".to_string()),
        object_brief_description: "Test contract".to_string(),
        contracting_procedure_type: "Direct Award".to_string(),
        contracting: vec![BaseGovEntity {
            id: 1,
            nif: "123456789".to_string(),
            description: "Contracting entity".to_string(),
        }],
        contracted: vec![BaseGovEntity {
            id: 2,
            nif: "987654321".to_string(),
            description: "Contracted entity".to_string(),
        }],
        cpv: BaseGovCpv {
            code: "72000000".to_string(),
            designation: "IT services".to_string(),
        },
        signing_date: Some("01-02-2023".to_string()),
        publication_date: "15-01-2023".to_string(),
        initial_contractual_price: "1.000,00 €".to_string(),
        regime: Some("Public".to_string()),
        contract_status: Some("Active".to_string()),
        non_written_contract_justification_types: "Emergency".to_string(),
        contract_types: "Service".to_string(),
        execution_deadline: "90 dias".to_string(),
        execution_place: "Lisbon".to_string(),
        contract_fundamentation_type: "Legal basis".to_string(),
        contestants: vec![],
        invitees: vec![],
        documents: vec![BaseGovDocument {
            id: 9,
            description: "spec.pdf".to_string(),
        }],
        contracting_procedure_url: None,
        announcement_id: -1,
        direct_award_fundamentation_type: "Urgency".to_string(),
        observations: None,
        ccp: true,
        end_of_contract_type: None,
        close_date: None,
        total_effective_price: Some("950,00 €".to_string()),
        causes_deadline_change: None,
        causes_price_change: None,
    }
}

#[test]
fn decode_contract_decodes_every_field() {
    let c = decode_contract(sample_raw()).unwrap();
    assert_eq!(c.id, 1);
    assert_eq!(c.publication_date, Date { year: 2023, month: 1, day: 15 });
    assert_eq!(c.signing_date, Some(Date { year: 2023, month: 2, day: 1 }));
    assert_eq!(c.initial_contractual_price.0, 100000);
    assert_eq!(c.total_effective_price.map(|p| p.0), Some(95000));
    assert_eq!(c.execution_deadline_days, 90);
    assert_eq!(c.announcement_id, None);
    assert_eq!(c.cpvs.len(), 1);
    assert_eq!(c.cpvs[0].code, "72000000");
    assert_eq!(c.cpvs[0].designation, "IT services");
    assert_eq!(c.contracting.len(), 1);
    assert_eq!(c.contracting[0].nif, "123456789");
    assert_eq!(c.contracted[0].description, "Contracted entity");
    assert_eq!(c.documents[0].description, "spec.pdf");
    assert!(c.ccp);
}

#[test]
fn decode_contract_reports_each_error() {
    let mut raw = sample_raw();
    raw.publication_date = "not a date".to_string();
    assert!(matches!(decode_contract(raw), Err(DecodeError::InvalidDate)));

    let mut raw = sample_raw();
    raw.signing_date = Some("99-99-9999".to_string());
    assert!(matches!(decode_contract(raw), Err(DecodeError::InvalidDate)));

    let mut raw = sample_raw();
    raw.initial_contractual_price = "many euros".to_string();
    assert!(matches!(decode_contract(raw), Err(DecodeError::InvalidCurrency)));

    let mut raw = sample_raw();
    raw.execution_deadline = "soon".to_string();
    assert!(matches!(decode_contract(raw), Err(DecodeError::InvalidDeadline)));

    let mut raw = sample_raw();
    raw.cpv = BaseGovCpv {
        code: "A | B".to_string(),
        designation: "X".to_string(),
    };
    assert!(matches!(decode_contract(raw), Err(DecodeError::CpvMismatch)));
}
