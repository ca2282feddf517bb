//! The query surface's sort and filter expressions, rendered for the search
//! index.

use vstd::prelude::*;

use crate::dates::Date;
use crate::text::{spec_date_string, spec_digits, spec_signed_digits, date_to_string,
    i64_to_string, u64_to_string};

verus! {

/// Direction of a search sort.
#[derive(Clone, Copy, PartialEq, Eq, Structural, Debug)]
pub enum SortDirection {
    Ascending,
    Descending,
}

impl Default for SortDirection {
    /// Results sort descending unless asked otherwise.
    fn default() -> (r: SortDirection)
        ensures
            r == SortDirection::Descending,
    {
        SortDirection::Descending
    }
}

/// The field a search sorts on.
#[derive(Clone, Copy, PartialEq, Eq, Structural, Debug)]
pub enum SortField {
    Id,
    PublicationDate,
    SigningDate,
    Price,
}

impl Default for SortField {
    /// Results sort by publication date unless asked otherwise.
    fn default() -> (r: SortField)
        ensures
            r == SortField::PublicationDate,
    {
        SortField::PublicationDate
    }
}

/// A search sort: a field and a direction.
#[derive(Clone, Copy, PartialEq, Eq, Structural, Debug)]
pub struct SortBy {
    pub field: SortField,
    pub direction: SortDirection,
}

impl Default for SortBy {
    fn default() -> (r: SortBy)
        ensures
            r == (SortBy { field: SortField::PublicationDate, direction: SortDirection::Descending }),
    {
        SortBy { field: SortField::PublicationDate, direction: SortDirection::Descending }
    }
}

impl SortField {
    /// The index attribute a field sorts on.
    pub open spec fn spec_attribute(self) -> Seq<char> {
        match self {
            SortField::Id => "id"@,
            SortField::PublicationDate => "publicationDate"@,
            SortField::SigningDate => "signingDate"@,
            SortField::Price => "initialContractualPrice"@,
        }
    }

    /// The index attribute a field sorts on.
    pub fn to_meilisearch(&self) -> (r: &'static str)
        ensures
            r@ == self.spec_attribute(),
    {
        match self {
            SortField::Id => "id",
            SortField::PublicationDate => "publicationDate",
            SortField::SigningDate => "signingDate",
            SortField::Price => "initialContractualPrice",
        }
    }

    /// Every sortable index attribute, in declaration order.
    pub fn to_meilisearch_all() -> (r: Vec<&'static str>)
        ensures
            r@.len() == 4,
            r@[0]@ == SortField::Id.spec_attribute(),
            r@[1]@ == SortField::PublicationDate.spec_attribute(),
            r@[2]@ == SortField::SigningDate.spec_attribute(),
            r@[3]@ == SortField::Price.spec_attribute(),
    {
        let mut r: Vec<&'static str> = Vec::new();
        r.push(SortField::Id.to_meilisearch());
        r.push(SortField::PublicationDate.to_meilisearch());
        r.push(SortField::SigningDate.to_meilisearch());
        r.push(SortField::Price.to_meilisearch());
        r
    }
}

impl SortBy {
    /// The sort expressions handed to the index: the chosen field and
    /// direction, with `id` as a secondary sort on date fields so that
    /// pagination stays stable.
    pub open spec fn spec_sort_exprs(self) -> Seq<Seq<char>> {
        match (self.field, self.direction) {
            (SortField::Id, SortDirection::Ascending) => seq!["id:asc"@],
            (SortField::Id, SortDirection::Descending) => seq!["id:desc"@],
            (SortField::PublicationDate, SortDirection::Ascending) => seq![
                "publicationDate:asc"@,
                "id:asc"@,
            ],
            (SortField::PublicationDate, SortDirection::Descending) => seq![
                "publicationDate:desc"@,
                "id:desc"@,
            ],
            (SortField::SigningDate, SortDirection::Ascending) => seq![
                "signingDate:asc"@,
                "id:asc"@,
            ],
            (SortField::SigningDate, SortDirection::Descending) => seq![
                "signingDate:desc"@,
                "id:desc"@,
            ],
            (SortField::Price, SortDirection::Ascending) => seq!["initialContractualPrice:asc"@],
            (SortField::Price, SortDirection::Descending) => seq![
                "initialContractualPrice:desc"@,
            ],
        }
    }

    /// Render the sort expressions for the index.
    pub fn to_meilisearch(&self) -> (r: Vec<&'static str>)
        ensures
            r@.map_values(|p: &'static str| p@) == self.spec_sort_exprs(),
    {
        let r: Vec<&'static str> = match (self.field, self.direction) {
            (SortField::Id, SortDirection::Ascending) => vec!["id:asc"],
            (SortField::Id, SortDirection::Descending) => vec!["id:desc"],
            (SortField::PublicationDate, SortDirection::Ascending) => vec![
                "publicationDate:asc",
                "id:asc",
            ],
            (SortField::PublicationDate, SortDirection::Descending) => vec![
                "publicationDate:desc",
                "id:desc",
            ],
            (SortField::SigningDate, SortDirection::Ascending) => vec![
                "signingDate:asc",
                "id:asc",
            ],
            (SortField::SigningDate, SortDirection::Descending) => vec![
                "signingDate:desc",
                "id:desc",
            ],
            (SortField::Price, SortDirection::Ascending) => vec!["initialContractualPrice:asc"],
            (SortField::Price, SortDirection::Descending) => vec![
                "initialContractualPrice:desc",
            ],
        };
        proof {
            assert(r@.map_values(|p: &'static str| p@) =~= self.spec_sort_exprs());
        }
        r
    }
}

/// A matched substring within a field value, as byte offsets.
#[derive(Clone, Copy, PartialEq, Eq, Structural, Debug)]
pub struct MatchingRange {
    pub start: usize,
    pub end: usize,
}

impl MatchingRange {
    /// Build a range from the index's start-and-length form.
    pub fn from_match(start: usize, length: usize) -> (r: MatchingRange)
        requires
            start + length <= usize::MAX,
        ensures
            r.start == start,
            r.end == start + length,
    {
        MatchingRange { start, end: start + length }
    }
}

/// The filters a search can carry; an empty struct filters nothing.
pub struct Filters {
    pub min_id: Option<u64>,
    pub max_id: Option<u64>,
    pub start_publication_date: Option<Date>,
    pub end_publication_date: Option<Date>,
    pub start_signing_date: Option<Date>,
    pub end_signing_date: Option<Date>,
    pub contracted: Option<String>,
    pub contracting: Option<String>,
    pub min_price: Option<i64>,
    pub max_price: Option<i64>,
}

/// One filter expression when the bound is present, nothing otherwise.
pub open spec fn opt_expr(present: bool, s: Seq<char>) -> Seq<Seq<char>> {
    if present {
        seq![s]
    } else {
        Seq::empty()
    }
}

impl Filters {
    /// The id and date filter expressions, in field order.
    pub open spec fn spec_range_exprs(self) -> Seq<Seq<char>> {
        opt_expr(
            self.min_id is Some,
            "id >= "@ + spec_digits(self.min_id.unwrap() as nat),
        ) + opt_expr(
            self.max_id is Some,
            "id <= "@ + spec_digits(self.max_id.unwrap() as nat),
        ) + opt_expr(
            self.start_publication_date is Some,
            "publicationDate >= '"@ + spec_date_string(self.start_publication_date.unwrap())
                + "'"@,
        ) + opt_expr(
            self.end_publication_date is Some,
            "publicationDate <= '"@ + spec_date_string(self.end_publication_date.unwrap())
                + "'"@,
        ) + opt_expr(
            self.start_signing_date is Some,
            "signingDate >= '"@ + spec_date_string(self.start_signing_date.unwrap()) + "'"@,
        ) + opt_expr(
            self.end_signing_date is Some,
            "signingDate <= '"@ + spec_date_string(self.end_signing_date.unwrap()) + "'"@,
        )
    }

    /// The entity and price filter expressions, in field order.
    pub open spec fn spec_entity_price_exprs(self) -> Seq<Seq<char>> {
        opt_expr(
            self.contracted is Some,
            "contracted = '"@ + self.contracted.unwrap()@ + "'"@,
        ) + opt_expr(
            self.contracting is Some,
            "contracting = '"@ + self.contracting.unwrap()@ + "'"@,
        ) + opt_expr(
            self.min_price is Some,
            "initialContractualPrice >= "@ + spec_signed_digits(self.min_price.unwrap() as int),
        ) + opt_expr(
            self.max_price is Some,
            "initialContractualPrice <= "@ + spec_signed_digits(self.max_price.unwrap() as int),
        )
    }

    /// The filter expressions, in field order: one comparison per bound that
    /// is set, with dates and entity names quoted.
    pub open spec fn spec_filter_exprs(self) -> Seq<Seq<char>> {
        self.spec_range_exprs() + self.spec_entity_price_exprs()
    }

    /// Every filterable index attribute.
    pub fn fields_to_meilisearch_all() -> (r: Vec<&'static str>)
        ensures
            r@.len() == 6,
            r@[0]@ == "id"@,
            r@[1]@ == "publicationDate"@,
            r@[2]@ == "signingDate"@,
            r@[3]@ == "contracted"@,
            r@[4]@ == "contracting"@,
            r@[5]@ == "initialContractualPrice"@,
    {
        let mut r: Vec<&'static str> = Vec::new();
        r.push("id");
        r.push("publicationDate");
        r.push("signingDate");
        r.push("contracted");
        r.push("contracting");
        r.push("initialContractualPrice");
        r
    }

    /// The id and date filter expressions.
    fn range_filters(&self) -> (r: Vec<String>)
        requires
            self.start_publication_date is Some ==> self.start_publication_date.unwrap().valid(),
            self.end_publication_date is Some ==> self.end_publication_date.unwrap().valid(),
            self.start_signing_date is Some ==> self.start_signing_date.unwrap().valid(),
            self.end_signing_date is Some ==> self.end_signing_date.unwrap().valid(),
        ensures
            r@.map_values(|s: String| s@) == self.spec_range_exprs(),
    {
        let mut r: Vec<String> = Vec::new();
        let ghost mut target: Seq<Seq<char>> = Seq::empty();
        if let Some(id) = self.min_id {
            let mut s = "id >= ".to_owned();
            let v = u64_to_string(id);
            s.append(v.as_str());
            r.push(s);
        }
        proof {
            target = target + opt_expr(
                self.min_id is Some,
                "id >= "@ + spec_digits(self.min_id.unwrap() as nat),
            );
            assert(r@.map_values(|s: String| s@) =~= target);
        }
        if let Some(id) = self.max_id {
            let mut s = "id <= ".to_owned();
            let v = u64_to_string(id);
            s.append(v.as_str());
            r.push(s);
        }
        proof {
            target = target + opt_expr(
                self.max_id is Some,
                "id <= "@ + spec_digits(self.max_id.unwrap() as nat),
            );
            assert(r@.map_values(|s: String| s@) =~= target);
        }
        if let Some(d) = self.start_publication_date {
            let mut s = "publicationDate >= '".to_owned();
            let v = date_to_string(&d);
            s.append(v.as_str());
            s.append("'");
            r.push(s);
        }
        proof {
            target = target + opt_expr(
                self.start_publication_date is Some,
                "publicationDate >= '"@ + spec_date_string(
                    self.start_publication_date.unwrap(),
                ) + "'"@,
            );
            assert(r@.map_values(|s: String| s@) =~= target);
        }
        if let Some(d) = self.end_publication_date {
            let mut s = "publicationDate <= '".to_owned();
            let v = date_to_string(&d);
            s.append(v.as_str());
            s.append("'");
            r.push(s);
        }
        proof {
            target = target + opt_expr(
                self.end_publication_date is Some,
                "publicationDate <= '"@ + spec_date_string(self.end_publication_date.unwrap())
                    + "'"@,
            );
            assert(r@.map_values(|s: String| s@) =~= target);
        }
        if let Some(d) = self.start_signing_date {
            let mut s = "signingDate >= '".to_owned();
            let v = date_to_string(&d);
            s.append(v.as_str());
            s.append("'");
            r.push(s);
        }
        proof {
            target = target + opt_expr(
                self.start_signing_date is Some,
                "signingDate >= '"@ + spec_date_string(self.start_signing_date.unwrap())
                    + "'"@,
            );
            assert(r@.map_values(|s: String| s@) =~= target);
        }
        if let Some(d) = self.end_signing_date {
            let mut s = "signingDate <= '".to_owned();
            let v = date_to_string(&d);
            s.append(v.as_str());
            s.append("'");
            r.push(s);
        }
        proof {
            target = target + opt_expr(
                self.end_signing_date is Some,
                "signingDate <= '"@ + spec_date_string(self.end_signing_date.unwrap()) + "'"@,
            );
            assert(r@.map_values(|s: String| s@) =~= target);
        }
        r
    }

    /// The entity and price filter expressions.
    fn entity_price_filters(&self) -> (r: Vec<String>)
        ensures
            r@.map_values(|s: String| s@) == self.spec_entity_price_exprs(),
    {
        let mut r: Vec<String> = Vec::new();
        let ghost mut target: Seq<Seq<char>> = Seq::empty();
        if let Some(e) = &self.contracted {
            let mut s = "contracted = '".to_owned();
            s.append(e.as_str());
            s.append("'");
            r.push(s);
        }
        proof {
            target = target + opt_expr(
                self.contracted is Some,
                "contracted = '"@ + self.contracted.unwrap()@ + "'"@,
            );
            assert(r@.map_values(|s: String| s@) =~= target);
        }
        if let Some(e) = &self.contracting {
            let mut s = "contracting = '".to_owned();
            s.append(e.as_str());
            s.append("'");
            r.push(s);
        }
        proof {
            target = target + opt_expr(
                self.contracting is Some,
                "contracting = '"@ + self.contracting.unwrap()@ + "'"@,
            );
            assert(r@.map_values(|s: String| s@) =~= target);
        }
        if let Some(p) = self.min_price {
            let mut s = "initialContractualPrice >= ".to_owned();
            let v = i64_to_string(p);
            s.append(v.as_str());
            r.push(s);
        }
        proof {
            target = target + opt_expr(
                self.min_price is Some,
                "initialContractualPrice >= "@ + spec_signed_digits(
                    self.min_price.unwrap() as int,
                ),
            );
            assert(r@.map_values(|s: String| s@) =~= target);
        }
        if let Some(p) = self.max_price {
            let mut s = "initialContractualPrice <= ".to_owned();
            let v = i64_to_string(p);
            s.append(v.as_str());
            r.push(s);
        }
        proof {
            target = target + opt_expr(
                self.max_price is Some,
                "initialContractualPrice <= "@ + spec_signed_digits(
                    self.max_price.unwrap() as int,
                ),
            );
            assert(r@.map_values(|s: String| s@) =~= target);
        }
        r
    }

    /// Render the filter expressions for the index.
    pub fn to_meilisearch(&self) -> (r: Vec<String>)
        requires
            self.start_publication_date is Some ==> self.start_publication_date.unwrap().valid(),
            self.end_publication_date is Some ==> self.end_publication_date.unwrap().valid(),
            self.start_signing_date is Some ==> self.start_signing_date.unwrap().valid(),
            self.end_signing_date is Some ==> self.end_signing_date.unwrap().valid(),
        ensures
            r@.map_values(|s: String| s@) == self.spec_filter_exprs(),
    {
        let mut r = self.range_filters();
        let mut rest = self.entity_price_filters();
        let ghost r0 = r@;
        let ghost rest0 = rest@;
        r.append(&mut rest);
        proof {
            assert(r@.map_values(|s: String| s@) =~= r0.map_values(|s: String| s@)
                + rest0.map_values(|s: String| s@));
        }
        r
    }
}

} // verus!
