//! The listing as it is read, the listing as it is written, and the step
//! that encodes the one on the way to the other.

use crate::category::{
    categorize_price, category_of, encode_room_type, room_type_code, text_of, PriceThresholds,
};
use crate::encoding::{lookup, EncodingMap};
use vstd::prelude::*;

verus! {

/// A listing as it is read, with the fields that encoding adds. Any field may
/// be absent. The price is in hundredths of the currency unit.
#[derive(Debug, PartialEq, Eq)]
pub struct AirbnbRecord {
    pub neighbourhood_group: Option<String>,
    pub neighbourhood: Option<String>,
    pub room_type: Option<String>,
    pub price: Option<u64>,
    pub minimum_nights: Option<u64>,
    pub number_of_reviews: Option<u64>,
    pub availability_365: Option<u64>,
    pub neighbourhood_group_encoded: Option<u64>,
    pub neighbourhood_encoded: Option<u64>,
    pub room_type_encoded: Option<u8>,
    pub price_category: Option<String>,
}

/// What an `AirbnbRecord` holds, with each text as a sequence of characters.
pub struct RecordView {
    pub neighbourhood_group: Option<Seq<char>>,
    pub neighbourhood: Option<Seq<char>>,
    pub room_type: Option<Seq<char>>,
    pub price: Option<u64>,
    pub minimum_nights: Option<u64>,
    pub number_of_reviews: Option<u64>,
    pub availability_365: Option<u64>,
    pub neighbourhood_group_encoded: Option<u64>,
    pub neighbourhood_encoded: Option<u64>,
    pub room_type_encoded: Option<u8>,
    pub price_category: Option<Seq<char>>,
}

/// A listing as it is written: every field is present and every category is
/// a code or a label.
#[derive(Debug, PartialEq, Eq)]
pub struct AirbnbCleanedRecord {
    pub neighbourhood_group_encoded: u64,
    pub neighbourhood_encoded: u64,
    pub room_type_encoded: u8,
    pub price_category: String,
    pub minimum_nights: u64,
    pub number_of_reviews: u64,
}

/// What an `AirbnbCleanedRecord` holds, with its label as a sequence of
/// characters.
pub struct CleanedRecordView {
    pub neighbourhood_group_encoded: u64,
    pub neighbourhood_encoded: u64,
    pub room_type_encoded: u8,
    pub price_category: Seq<char>,
    pub minimum_nights: u64,
    pub number_of_reviews: u64,
}

impl View for AirbnbCleanedRecord {
    type V = CleanedRecordView;

    open spec fn view(&self) -> CleanedRecordView {
        CleanedRecordView {
            neighbourhood_group_encoded: self.neighbourhood_group_encoded,
            neighbourhood_encoded: self.neighbourhood_encoded,
            room_type_encoded: self.room_type_encoded,
            price_category: self.price_category@,
            minimum_nights: self.minimum_nights,
            number_of_reviews: self.number_of_reviews,
        }
    }
}

/// What each written listing of `records` holds.
pub open spec fn cleaned_views(records: Seq<AirbnbCleanedRecord>) -> Seq<CleanedRecordView> {
    records.map_values(|record: AirbnbCleanedRecord| record@)
}

/// The numeric columns of a listing.
#[derive(Debug, Clone, Copy, PartialEq, Eq, Structural)]
pub enum Column {
    MinimumNights,
    NumberOfReviews,
    Price,
    Availability365,
}

/// The number that is written for a field: its value, or zero where it is
/// absent.
pub open spec fn number_or_zero(field: Option<u64>) -> u64 {
    match field {
        Some(value) => value,
        None => 0,
    }
}

impl RecordView {
    /// The listing may be written: it has a price and a neighbourhood group.
    pub open spec fn is_complete(self) -> bool {
        self.price is Some && self.neighbourhood_group is Some
    }

    /// The listing in its written form, where each absent field is written
    /// as zero or as the empty label.
    pub open spec fn row(self) -> CleanedRecordView {
        CleanedRecordView {
            neighbourhood_group_encoded: number_or_zero(self.neighbourhood_group_encoded),
            neighbourhood_encoded: number_or_zero(self.neighbourhood_encoded),
            room_type_encoded: match self.room_type_encoded {
                Some(code) => code,
                None => 0,
            },
            price_category: match self.price_category {
                Some(label) => label,
                None => Seq::empty(),
            },
            minimum_nights: number_or_zero(self.minimum_nights),
            number_of_reviews: number_or_zero(self.number_of_reviews),
        }
    }

    /// What is written for the listing: its row if it has a price and a
    /// neighbourhood group, and nothing otherwise.
    pub open spec fn cleaned(self) -> Option<CleanedRecordView> {
        if self.is_complete() {
            Some(self.row())
        } else {
            None
        }
    }

    /// The field of the listing in `column`.
    pub open spec fn value(self, column: Column) -> Option<u64> {
        match column {
            Column::MinimumNights => self.minimum_nights,
            Column::NumberOfReviews => self.number_of_reviews,
            Column::Price => self.price,
            Column::Availability365 => self.availability_365,
        }
    }
}

impl View for AirbnbRecord {
    type V = RecordView;

    open spec fn view(&self) -> RecordView {
        RecordView {
            neighbourhood_group: text_of(self.neighbourhood_group),
            neighbourhood: text_of(self.neighbourhood),
            room_type: text_of(self.room_type),
            price: self.price,
            minimum_nights: self.minimum_nights,
            number_of_reviews: self.number_of_reviews,
            availability_365: self.availability_365,
            neighbourhood_group_encoded: self.neighbourhood_group_encoded,
            neighbourhood_encoded: self.neighbourhood_encoded,
            room_type_encoded: self.room_type_encoded,
            price_category: text_of(self.price_category),
        }
    }
}

/// What each listing of `records` holds.
pub open spec fn views(records: Seq<AirbnbRecord>) -> Seq<RecordView> {
    records.map_values(|record: AirbnbRecord| record@)
}

/// The code that a categorical field gets: the code of its value where the
/// field is present, which is none for a value that `codes` does not hold.
/// An absent field leaves what was there.
pub open spec fn encoded_field(
    field: Option<Seq<char>>,
    codes: Map<Seq<char>, nat>,
    before: Option<u64>,
) -> Option<u64> {
    match field {
        Some(value) => lookup(codes, value),
        None => before,
    }
}

/// The listing `record` with its encoded fields filled in: the code of its
/// neighbourhood group; the code of its neighbourhood, where codes for
/// neighbourhoods are in use; the code of its room type; and the label of
/// its price category, where it has a price.
pub open spec fn encoded(
    record: RecordView,
    groups: Map<Seq<char>, nat>,
    neighbourhoods: Option<Map<Seq<char>, nat>>,
    thresholds: PriceThresholds,
) -> RecordView {
    RecordView {
        neighbourhood_group_encoded: encoded_field(
            record.neighbourhood_group,
            groups,
            record.neighbourhood_group_encoded,
        ),
        neighbourhood_encoded: match neighbourhoods {
            Some(codes) => encoded_field(
                record.neighbourhood,
                codes,
                record.neighbourhood_encoded,
            ),
            None => record.neighbourhood_encoded,
        },
        room_type_encoded: Some(room_type_code(record.room_type)),
        price_category: match record.price {
            Some(price) => Some(category_of(price, thresholds).label()),
            None => record.price_category,
        },
        ..record
    }
}

/// The codes of a map that may be absent.
pub open spec fn codes_of_optional(map: Option<&EncodingMap>) -> Option<Map<Seq<char>, nat>> {
    match map {
        Some(map) => Some(map@),
        None => None,
    }
}

/// Returns a copy of a text field.
fn copy_text(field: &Option<String>) -> (copy: Option<String>)
    ensures
        copy == *field,
{
    match field {
        Some(text) => Some(text.clone()),
        None => None,
    }
}

impl Clone for AirbnbRecord {
    fn clone(&self) -> (copy: AirbnbRecord)
        ensures
            copy == *self,
    {
        AirbnbRecord {
            neighbourhood_group: copy_text(&self.neighbourhood_group),
            neighbourhood: copy_text(&self.neighbourhood),
            room_type: copy_text(&self.room_type),
            price: self.price,
            minimum_nights: self.minimum_nights,
            number_of_reviews: self.number_of_reviews,
            availability_365: self.availability_365,
            neighbourhood_group_encoded: self.neighbourhood_group_encoded,
            neighbourhood_encoded: self.neighbourhood_encoded,
            room_type_encoded: self.room_type_encoded,
            price_category: copy_text(&self.price_category),
        }
    }
}

impl Clone for AirbnbCleanedRecord {
    fn clone(&self) -> (copy: AirbnbCleanedRecord)
        ensures
            copy == *self,
    {
        AirbnbCleanedRecord {
            neighbourhood_group_encoded: self.neighbourhood_group_encoded,
            neighbourhood_encoded: self.neighbourhood_encoded,
            room_type_encoded: self.room_type_encoded,
            price_category: self.price_category.clone(),
            minimum_nights: self.minimum_nights,
            number_of_reviews: self.number_of_reviews,
        }
    }
}

impl AirbnbRecord {
    /// Returns the field of the listing in `column`.
    pub fn value(&self, column: Column) -> (field: Option<u64>)
        ensures
            field == self@.value(column),
    {
        match column {
            Column::MinimumNights => self.minimum_nights,
            Column::NumberOfReviews => self.number_of_reviews,
            Column::Price => self.price,
            Column::Availability365 => self.availability_365,
        }
    }

    /// Returns the listing in its written form, or `None` for a listing
    /// that lacks its price or its neighbourhood group. Any other absent
    /// field is written as zero, an absent price category as the empty label.
    pub fn to_cleaned(&self) -> (row: Option<AirbnbCleanedRecord>)
        ensures
            match row {
                Some(row) => self@.cleaned() == Some(row@),
                None => self@.cleaned() is None,
            },
    {
        if self.price.is_none() || self.neighbourhood_group.is_none() {
            return None;
        }
        Some(
            AirbnbCleanedRecord {
                neighbourhood_group_encoded: match self.neighbourhood_group_encoded {
                    Some(code) => code,
                    None => 0,
                },
                neighbourhood_encoded: match self.neighbourhood_encoded {
                    Some(code) => code,
                    None => 0,
                },
                room_type_encoded: match self.room_type_encoded {
                    Some(code) => code,
                    None => 0,
                },
                price_category: match &self.price_category {
                    Some(label) => label.clone(),
                    None => String::new(),
                },
                minimum_nights: match self.minimum_nights {
                    Some(nights) => nights,
                    None => 0,
                },
                number_of_reviews: match self.number_of_reviews {
                    Some(reviews) => reviews,
                    None => 0,
                },
            },
        )
    }

    /// Fills in the encoded fields of the listing. A neighbourhood group or
    /// a neighbourhood that its map does not hold gets no code; an absent one
    /// leaves the field as it was. The room type always gets a code. A
    /// listing without a price keeps the price category it had.
    pub fn encode_features(
        &mut self,
        neighbourhood_group_map: &EncodingMap,
        neighbourhood_map: Option<&EncodingMap>,
        price_thresholds: &PriceThresholds,
    )
        ensures
            final(self)@ == encoded(
                old(self)@,
                neighbourhood_group_map@,
                codes_of_optional(neighbourhood_map),
                *price_thresholds,
            ),
    {
        if let Some(group) = &self.neighbourhood_group {
            self.neighbourhood_group_encoded = neighbourhood_group_map.get(group);
        }
        if let Some(map) = neighbourhood_map {
            if let Some(neighbourhood) = &self.neighbourhood {
                self.neighbourhood_encoded = map.get(neighbourhood);
            }
        }
        self.room_type_encoded = Some(encode_room_type(&self.room_type));
        if let Some(price) = self.price {
            self.price_category = Some(categorize_price(price, price_thresholds).to_label());
        }
    }
}

} // verus!
