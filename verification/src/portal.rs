//! The portal's form-encoded request shapes: the search and detail payloads
//! and the sort expression, exactly as the wire wants them.

use vstd::prelude::*;

use crate::text::{spec_digits, u64_to_string};

verus! {

/// The portal's results endpoint.
pub const PORTAL_URL: &'static str = "https://www.base.gov.pt/Base4/pt/resultados/";

/// The browser user agent sent with every request.
pub const PORTAL_USER_AGENT: &'static str =
    "Mozilla/5.0 (Windows NT 10.0; Win64; x64) AppleWebKit/537.36 (KHTML, like Gecko) Chrome/140.0.0.0 Safari/537.36";

/// The portal protocol version sent in every payload.
pub const PORTAL_VERSION: &'static str = "140.0";

/// The constant query that selects all contracts.
pub const SEARCH_ALL_QUERY: &'static str = "tipo=0&tipocontrato=0&pais=0&distrito=0&concelho=0";

/// Sort direction of a portal search.
#[derive(Clone, Copy, PartialEq, Eq, Structural, Debug)]
pub enum SortOrder {
    Ascending,
    Descending,
}

/// The field a portal search is sorted by.
#[derive(Clone, Copy, PartialEq, Eq, Structural, Debug)]
pub enum ContractSortMethod {
    PublicationDate,
    ObjectBriefDescription,
    InitialContractualPrice,
    Id,
}

/// A portal sort: a field and a direction, sent as `"±field"`.
#[derive(Clone, Copy, PartialEq, Eq, Structural, Debug)]
pub struct ContractSort {
    pub method: ContractSortMethod,
    pub order: SortOrder,
}

impl ContractSort {
    /// The wire form of the sort: `+` for ascending or `-` for descending,
    /// then the field name.
    pub open spec fn spec_sort_string(self) -> Seq<char> {
        let prefix = match self.order {
            SortOrder::Ascending => "+"@,
            SortOrder::Descending => "-"@,
        };
        let name = match self.method {
            ContractSortMethod::PublicationDate => "publicationDate"@,
            ContractSortMethod::ObjectBriefDescription => "objectBriefDescription"@,
            ContractSortMethod::InitialContractualPrice => "initialContractualPrice"@,
            ContractSortMethod::Id => "id"@,
        };
        prefix + name
    }

    /// Render the sort for the form payload.
    pub fn to_sort_string(&self) -> (r: String)
        ensures
            r@ == self.spec_sort_string(),
    {
        let mut s = match self.order {
            SortOrder::Ascending => "+".to_owned(),
            SortOrder::Descending => "-".to_owned(),
        };
        let name: &str = match self.method {
            ContractSortMethod::PublicationDate => "publicationDate",
            ContractSortMethod::ObjectBriefDescription => "objectBriefDescription",
            ContractSortMethod::InitialContractualPrice => "initialContractualPrice",
            ContractSortMethod::Id => "id",
        };
        s.append(name);
        s
    }
}

/// A request body for the portal: either one page of an id search over all
/// contracts, or the details of one contract.
pub enum BaseGovPayload {
    SearchContracts { version: String, query: String, sort: ContractSort, page: usize, size: usize },
    ContractDetails { version: String, id: u64 },
}

impl BaseGovPayload {
    /// The payload of the `page`-th window, `size` wide, of a search over
    /// all contracts.
    pub fn new_search_all_contracts(sort: ContractSort, page: usize, size: usize) -> (r:
        BaseGovPayload)
        ensures
            r matches BaseGovPayload::SearchContracts {
                version,
                query,
                sort: s,
                page: p,
                size: z,
            } && version@ == PORTAL_VERSION@ && query@ == SEARCH_ALL_QUERY@ && s == sort && p
                == page && z == size,
    {
        BaseGovPayload::SearchContracts {
            version: PORTAL_VERSION.to_owned(),
            query: SEARCH_ALL_QUERY.to_owned(),
            sort,
            page,
            size,
        }
    }

    /// The payload that asks for one contract's full record.
    pub fn new_contract_details(id: u64) -> (r: BaseGovPayload)
        ensures
            r matches BaseGovPayload::ContractDetails { version, id: i } && version@
                == PORTAL_VERSION@ && i == id,
    {
        BaseGovPayload::ContractDetails { version: PORTAL_VERSION.to_owned(), id }
    }

    /// The form fields of the payload, in wire order. The discriminating
    /// `type` field comes first; a search carries its query, sort, page and
    /// size, a detail request its contract id.
    pub fn form_fields(&self) -> (r: Vec<(String, String)>)
        ensures
            self matches BaseGovPayload::SearchContracts { version, query, sort, page, size }
                ==> r@.len() == 6 && r@[0].0@ == "type"@ && r@[0].1@ == "search_contratos"@
                && r@[1].0@ == "version"@ && r@[1].1@ == version@ && r@[2].0@ == "query"@
                && r@[2].1@ == query@ && r@[3].0@ == "sort"@ && r@[3].1@
                == sort.spec_sort_string() && r@[4].0@ == "page"@ && r@[4].1@ == spec_digits(
                page as nat,
            ) && r@[5].0@ == "size"@ && r@[5].1@ == spec_digits(size as nat),
            self matches BaseGovPayload::ContractDetails { version, id } ==> r@.len() == 3
                && r@[0].0@ == "type"@ && r@[0].1@ == "detail_contratos"@ && r@[1].0@
                == "version"@ && r@[1].1@ == version@ && r@[2].0@ == "id"@ && r@[2].1@
                == spec_digits(id as nat),
    {
        let mut r: Vec<(String, String)> = Vec::new();
        match self {
            BaseGovPayload::SearchContracts { version, query, sort, page, size } => {
                r.push(("type".to_owned(), "search_contratos".to_owned()));
                r.push(("version".to_owned(), version.clone()));
                r.push(("query".to_owned(), query.clone()));
                r.push(("sort".to_owned(), sort.to_sort_string()));
                r.push(("page".to_owned(), u64_to_string(*page as u64)));
                r.push(("size".to_owned(), u64_to_string(*size as u64)));
            },
            BaseGovPayload::ContractDetails { version, id } => {
                r.push(("type".to_owned(), "detail_contratos".to_owned()));
                r.push(("version".to_owned(), version.clone()));
                r.push(("id".to_owned(), u64_to_string(*id)));
            },
        }
        r
    }
}

/// The minimal record an id search returns for each hit.
#[derive(Clone, Copy, PartialEq, Eq, Structural, Debug)]
pub struct BaseGovContractMinimal {
    pub id: u64,
}

/// One page of an id search: the portal's reported total hit count and the
/// page's minimal records.
pub struct ContractSearchResponse {
    pub total: usize,
    pub items: Vec<BaseGovContractMinimal>,
}

} // verus!
