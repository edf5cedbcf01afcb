//! The typed records a parsed List One document is made of, together with
//! their mathematical models.

use vstd::prelude::*;

verus! {

/// Model of one currency entry: the six fields of one row of the registry.
pub struct EntryModel {
    pub ctry_nm: Seq<char>,
    pub ccy_nm: Seq<char>,
    pub is_fund: bool,
    pub ccy: Option<Seq<char>>,
    pub ccy_nbr: Option<Seq<char>>,
    pub ccy_mnr_unts: Option<i32>,
}

/// Model of a parsed document: the publication date and the entries in
/// source order.
pub struct DocModel {
    pub pblshd: Seq<char>,
    pub entries: Seq<EntryModel>,
}

/// A CcyNtry element in the List One document: one country/currency row.
#[derive(Clone, Debug, PartialEq, Eq)]
pub struct CcyNtry {
    pub ctry_nm: String,
    pub ccy_nm: String,
    pub is_fund: bool,
    pub ccy: Option<String>,
    pub ccy_nbr: Option<String>,
    pub ccy_mnr_unts: Option<i32>,
}

impl View for CcyNtry {
    type V = EntryModel;

    open spec fn view(&self) -> EntryModel {
        EntryModel {
            ctry_nm: self.ctry_nm@,
            ccy_nm: self.ccy_nm@,
            is_fund: self.is_fund,
            ccy: self.ccy.deep_view(),
            ccy_nbr: self.ccy_nbr.deep_view(),
            ccy_mnr_unts: self.ccy_mnr_unts,
        }
    }
}

impl DeepView for CcyNtry {
    type V = EntryModel;

    open spec fn deep_view(&self) -> EntryModel {
        self.view()
    }
}

impl CcyNtry {
    /// Builds an entry from its six field values.
    pub fn new(
        ctry_nm: String,
        ccy_nm: String,
        is_fund: bool,
        ccy: Option<String>,
        ccy_nbr: Option<String>,
        ccy_mnr_unts: Option<i32>,
    ) -> (r: CcyNtry)
        ensures
            r@ == (EntryModel {
                ctry_nm: ctry_nm@,
                ccy_nm: ccy_nm@,
                is_fund: is_fund,
                ccy: ccy.deep_view(),
                ccy_nbr: ccy_nbr.deep_view(),
                ccy_mnr_unts: ccy_mnr_unts,
            }),
    {
        CcyNtry { ctry_nm, ccy_nm, is_fund, ccy, ccy_nbr, ccy_mnr_unts }
    }

    /// Returns the country name.
    pub fn ctry_nm(&self) -> (r: &str)
        ensures
            r@ == self@.ctry_nm,
    {
        self.ctry_nm.as_str()
    }

    /// Returns the currency name.
    pub fn ccy_nm(&self) -> (r: &str)
        ensures
            r@ == self@.ccy_nm,
    {
        self.ccy_nm.as_str()
    }

    /// Returns true if the currency is a fund.
    pub fn is_fund(&self) -> (r: bool)
        ensures
            r == self@.is_fund,
    {
        self.is_fund
    }

    /// Returns the alphabetic code, if the source document carried one.
    pub fn ccy(&self) -> (r: Option<&str>)
        ensures
            match r {
                Some(s) => self@.ccy == Some(s@),
                None => self@.ccy is None,
            },
    {
        match &self.ccy {
            Some(s) => Some(s.as_str()),
            None => None,
        }
    }

    /// Returns the numeric code, if the source document carried one.
    pub fn ccy_nbr(&self) -> (r: Option<&str>)
        ensures
            match r {
                Some(s) => self@.ccy_nbr == Some(s@),
                None => self@.ccy_nbr is None,
            },
    {
        match &self.ccy_nbr {
            Some(s) => Some(s.as_str()),
            None => None,
        }
    }

    /// Returns the minor unit, if the source document carried a numeric one.
    pub fn ccy_mnr_unts(&self) -> (r: Option<i32>)
        ensures
            r == self@.ccy_mnr_unts,
    {
        self.ccy_mnr_unts
    }
}

/// The List One (current currencies & funds) document, parsed.
#[derive(Clone, Debug, PartialEq, Eq)]
pub struct ListOne {
    pub pblshd: String,
    pub entries: Vec<CcyNtry>,
}

impl View for ListOne {
    type V = DocModel;

    open spec fn view(&self) -> DocModel {
        DocModel { pblshd: self.pblshd@, entries: self.entries.deep_view() }
    }
}

impl ListOne {
    /// Builds a document from its publication date and entries.
    pub fn new(pblshd: String, entries: Vec<CcyNtry>) -> (r: ListOne)
        ensures
            r@ == (DocModel { pblshd: pblshd@, entries: entries.deep_view() }),
    {
        ListOne { pblshd, entries }
    }

    /// Returns the list of CcyNtry elements, in source order.
    pub fn entries(&self) -> (r: &[CcyNtry])
        ensures
            r.deep_view() == self@.entries,
    {
        let r = self.entries.as_slice();
        proof {
            assert(r.deep_view() =~= self.entries.deep_view());
        }
        r
    }

    /// Returns the published date of the document.
    pub fn pblshd(&self) -> (r: &str)
        ensures
            r@ == self@.pblshd,
    {
        self.pblshd.as_str()
    }
}

} // verus!
