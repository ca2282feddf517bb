use contratos::dates::Date;
use contratos::search::{Filters, MatchingRange, SortBy, SortDirection, SortField};
use contratos::text::{date_to_string, get_folder_path, i64_to_string, u64_to_string};

fn empty_filters() -> Filters {
    Filters {
        min_id: None,
        max_id: None,
        start_publication_date: None,
        end_publication_date: None,
        start_signing_date: None,
        end_signing_date: None,
        contracted: None,
        contracting: None,
        min_price: None,
        max_price: None,
    }
}

#[test]
fn sort_fields_map_to_index_attributes() {
    assert_eq!(SortField::Id.to_meilisearch(), "id");
    assert_eq!(SortField::PublicationDate.to_meilisearch(), "publicationDate");
    assert_eq!(SortField::SigningDate.to_meilisearch(), "signingDate");
    assert_eq!(SortField::Price.to_meilisearch(), "initialContractualPrice");
    assert_eq!(
        SortField::to_meilisearch_all(),
        vec!["id", "publicationDate", "signingDate", "initialContractualPrice"]
    );
}

#[test]
fn date_sorts_get_a_stable_secondary_key() {
    let sort = SortBy { field: SortField::PublicationDate, direction: SortDirection::Descending };
    assert_eq!(sort.to_meilisearch(), vec!["publicationDate:desc", "id:desc"]);
    let sort = SortBy { field: SortField::SigningDate, direction: SortDirection::Ascending };
    assert_eq!(sort.to_meilisearch(), vec!["signingDate:asc", "id:asc"]);
    let sort = SortBy { field: SortField::Id, direction: SortDirection::Ascending };
    assert_eq!(sort.to_meilisearch(), vec!["id:asc"]);
    let sort = SortBy { field: SortField::Price, direction: SortDirection::Descending };
    assert_eq!(sort.to_meilisearch(), vec!["initialContractualPrice:desc"]);
}

#[test]
fn default_sort_is_publication_date_descending() {
    let sort = SortBy::default();
    assert_eq!(sort.to_meilisearch(), vec!["publicationDate:desc", "id:desc"]);
}

#[test]
fn empty_filters_render_nothing() {
    assert_eq!(empty_filters().to_meilisearch(), Vec::<String>::new());
}

#[test]
fn filters_render_in_field_order() {
    let mut f = empty_filters();
    f.min_id = Some(5);
    f.max_id = Some(10);
    f.start_publication_date = Some(Date { year: 2023, month: 1, day: 15 });
    f.contracted = Some("Some Entity".to_string());
    f.min_price = Some(-250);
    assert_eq!(
        f.to_meilisearch(),
        vec![
            "id >= 5".to_string(),
            "id <= 10".to_string(),
            "publicationDate >= '2023-01-15'".to_string(),
            "contracted = 'Some Entity'".to_string(),
            "initialContractualPrice >= -250".to_string(),
        ]
    );
}

#[test]
fn filterable_attributes_are_stable() {
    assert_eq!(
        Filters::fields_to_meilisearch_all(),
        vec![
            "id",
            "publicationDate",
            "signingDate",
            "contracted",
            "contracting",
            "initialContractualPrice"
        ]
    );
}

#[test]
fn matching_range_turns_length_into_end() {
    let r = MatchingRange::from_match(4, 7);
    assert_eq!(r.start, 4);
    assert_eq!(r.end, 11);
}

#[test]
fn numbers_render_in_decimal() {
    assert_eq!(u64_to_string(0), "0");
    assert_eq!(u64_to_string(987654321), "987654321");
    assert_eq!(i64_to_string(-42), "-42");
    assert_eq!(i64_to_string(i64::MIN), "-9223372036854775808");
    assert_eq!(i64_to_string(7), "7");
}

#[test]
fn dates_render_zero_padded() {
    assert_eq!(
        date_to_string(&Date { year: 2023, month: 1, day: 5 }),
        "2023-01-05"
    );
    assert_eq!(
        date_to_string(&Date { year: 987, month: 12, day: 31 }),
        "0987-12-31"
    );
}

#[test]
fn folder_path_groups_pages_by_hundred() {
    assert_eq!(get_folder_path(0), "contracts/group_00000");
    assert_eq!(get_folder_path(99), "contracts/group_00000");
    assert_eq!(get_folder_path(100), "contracts/group_00001");
    assert_eq!(get_folder_path(123456), "contracts/group_01234");
}
