//! The canonical postal record.

use vstd::prelude::*;
use vstd::std_specs::cmp::PartialEqSpecImpl;

verus! {

/// One canonical postal record, as it is stored and served.
#[derive(Debug, Hash)]
pub struct PostalCode {
    pub zip_code: String,
    pub prefecture_id: i16,
    pub city_id: String,
    pub prefecture: String,
    pub city: String,
    pub town: String,
}

/// The mathematical value of a postal record: its six fields as plain values.
pub struct PostalCodeView {
    pub zip_code: Seq<char>,
    pub prefecture_id: int,
    pub city_id: Seq<char>,
    pub prefecture: Seq<char>,
    pub city: Seq<char>,
    pub town: Seq<char>,
}

/// The primary key of a record: zip code, prefecture id, city and town.
pub type PrimaryKey = (Seq<char>, int, Seq<char>, Seq<char>);

impl PostalCodeView {
    /// The primary key under which the record is stored.
    pub open spec fn primary_key(self) -> PrimaryKey {
        (self.zip_code, self.prefecture_id, self.city, self.town)
    }

    /// The same record with another town.
    pub open spec fn with_town(self, town: Seq<char>) -> PostalCodeView {
        PostalCodeView { town, ..self }
    }
}

impl View for PostalCode {
    type V = PostalCodeView;

    open spec fn view(&self) -> PostalCodeView {
        PostalCodeView {
            zip_code: self.zip_code@,
            prefecture_id: self.prefecture_id as int,
            city_id: self.city_id@,
            prefecture: self.prefecture@,
            city: self.city@,
            town: self.town@,
        }
    }
}

impl DeepView for PostalCode {
    type V = PostalCodeView;

    open spec fn deep_view(&self) -> PostalCodeView {
        self@
    }
}

impl Clone for PostalCode {
    fn clone(&self) -> (copy: Self)
        ensures
            copy == *self,
    {
        PostalCode {
            zip_code: self.zip_code.clone(),
            prefecture_id: self.prefecture_id,
            city_id: self.city_id.clone(),
            prefecture: self.prefecture.clone(),
            city: self.city.clone(),
            town: self.town.clone(),
        }
    }
}

impl PartialEq for PostalCode {
    fn eq(&self, other: &Self) -> (equal: bool) {
        self.zip_code == other.zip_code && self.prefecture_id == other.prefecture_id
            && self.city_id == other.city_id && self.prefecture == other.prefecture && self.city
            == other.city && self.town == other.town
    }
}

impl PartialEqSpecImpl for PostalCode {
    open spec fn obeys_eq_spec() -> bool {
        true
    }

    open spec fn eq_spec(&self, other: &Self) -> bool {
        self@ == other@
    }
}

impl Eq for PostalCode {

}

impl PostalCode {
    /// Whether two records are stored under the same primary key.
    pub fn same_primary_key(&self, other: &PostalCode) -> (same: bool)
        ensures
            same == (self@.primary_key() == other@.primary_key()),
    {
        self.zip_code == other.zip_code && self.prefecture_id == other.prefecture_id && self.city
            == other.city && self.town == other.town
    }
}

} // verus!
