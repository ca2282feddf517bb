use contratos::portal::{
    BaseGovPayload, ContractSort, ContractSortMethod, SortOrder, PORTAL_URL, PORTAL_VERSION,
};

fn fields_as_pairs(payload: &BaseGovPayload) -> Vec<(String, String)> {
    payload.form_fields()
}

#[test]
fn sort_serializes_with_sign_prefix() {
    let asc = ContractSort { method: ContractSortMethod::Id, order: SortOrder::Ascending };
    assert_eq!(asc.to_sort_string(), "+id");
    let desc = ContractSort {
        method: ContractSortMethod::PublicationDate,
        order: SortOrder::Descending,
    };
    assert_eq!(desc.to_sort_string(), "-publicationDate");
    let price = ContractSort {
        method: ContractSortMethod::InitialContractualPrice,
        order: SortOrder::Ascending,
    };
    assert_eq!(price.to_sort_string(), "+initialContractualPrice");
    let brief = ContractSort {
        method: ContractSortMethod::ObjectBriefDescription,
        order: SortOrder::Descending,
    };
    assert_eq!(brief.to_sort_string(), "-objectBriefDescription");
}

#[test]
fn search_payload_carries_the_full_form() {
    let sort = ContractSort { method: ContractSortMethod::Id, order: SortOrder::Ascending };
    let payload = BaseGovPayload::new_search_all_contracts(sort, 3, 50);
    let fields = fields_as_pairs(&payload);
    assert_eq!(
        fields,
        vec![
            ("type".to_string(), "search_contratos".to_string()),
            ("version".to_string(), "140.0".to_string()),
            (
                "query".to_string(),
                "tipo=0&tipocontrato=0&pais=0&distrito=0&concelho=0".to_string()
            ),
            ("sort".to_string(), "+id".to_string()),
            ("page".to_string(), "3".to_string()),
            ("size".to_string(), "50".to_string()),
        ]
    );
}

#[test]
fn detail_payload_carries_the_id() {
    let payload = BaseGovPayload::new_contract_details(987654);
    let fields = fields_as_pairs(&payload);
    assert_eq!(
        fields,
        vec![
            ("type".to_string(), "detail_contratos".to_string()),
            ("version".to_string(), "140.0".to_string()),
            ("id".to_string(), "987654".to_string()),
        ]
    );
}

#[test]
fn portal_constants_are_stable() {
    assert_eq!(PORTAL_URL, "https://www.base.gov.pt/Base4/pt/resultados/");
    assert_eq!(PORTAL_VERSION, "140.0");
}
