//! The written form of a listing as text: the names of its columns, and its
//! fields with each number in decimal.

use crate::record::{AirbnbCleanedRecord, CleanedRecordView};
use vstd::prelude::*;
use vstd::string::*;

verus! {

/// The names of the columns of a written listing, in the order of its fields.
pub open spec fn cleaned_columns() -> Seq<Seq<char>> {
    seq![
        "neighbourhood_group_encoded"@,
        "neighbourhood_encoded"@,
        "room_type_encoded"@,
        "price_category"@,
        "minimum_nights"@,
        "number_of_reviews"@,
    ]
}

/// Returns the names of the columns of a written listing, in the order of
/// its fields.
pub fn cleaned_header() -> (names: [&'static str; 6])
    ensures
        names@.len() == cleaned_columns().len(),
        forall|i: int| 0 <= i < names@.len() ==> (#[trigger] names@[i])@ == cleaned_columns()[i],
{
    [
        "neighbourhood_group_encoded",
        "neighbourhood_encoded",
        "room_type_encoded",
        "price_category",
        "minimum_nights",
        "number_of_reviews",
    ]
}

/// The character of a decimal digit.
pub open spec fn digit_char(digit: nat) -> char
    recommends
        digit < 10,
{
    if digit == 0 {
        '0'
    } else if digit == 1 {
        '1'
    } else if digit == 2 {
        '2'
    } else if digit == 3 {
        '3'
    } else if digit == 4 {
        '4'
    } else if digit == 5 {
        '5'
    } else if digit == 6 {
        '6'
    } else if digit == 7 {
        '7'
    } else if digit == 8 {
        '8'
    } else {
        '9'
    }
}

/// The number `value` in decimal, without leading zeros.
pub open spec fn decimal(value: nat) -> Seq<char>
    decreases value,
{
    if value < 10 {
        seq![digit_char(value)]
    } else {
        decimal(value / 10).push(digit_char(value % 10))
    }
}

/// Returns the text of one decimal digit.
fn digit_text(digit: u64) -> (text: &'static str)
    requires
        digit < 10,
    ensures
        text@ == seq![digit_char(digit as nat)],
{
    proof {
        reveal_strlit("0");
        reveal_strlit("1");
        reveal_strlit("2");
        reveal_strlit("3");
        reveal_strlit("4");
        reveal_strlit("5");
        reveal_strlit("6");
        reveal_strlit("7");
        reveal_strlit("8");
        reveal_strlit("9");
    }
    let text = if digit == 0 {
        "0"
    } else if digit == 1 {
        "1"
    } else if digit == 2 {
        "2"
    } else if digit == 3 {
        "3"
    } else if digit == 4 {
        "4"
    } else if digit == 5 {
        "5"
    } else if digit == 6 {
        "6"
    } else if digit == 7 {
        "7"
    } else if digit == 8 {
        "8"
    } else {
        "9"
    };
    assert(text@ =~= seq![digit_char(digit as nat)]);
    text
}

/// Returns `value` in decimal, without leading zeros.
pub fn to_decimal(value: u64) -> (text: String)
    ensures
        text@ == decimal(value as nat),
{
    // the digits from the last to the first, each with the number it was
    // taken from
    let mut digits: Vec<u64> = Vec::new();
    let ghost mut sources: Seq<u64> = Seq::empty();
    let mut rest: u64 = value;
    while rest >= 10
        invariant
            digits@.len() == sources.len(),
            forall|k: int| 0 <= k < sources.len() ==> #[trigger] sources[k] >= 10,
            forall|k: int| 0 <= k < sources.len() ==> digits@[k] == #[trigger] sources[k] % 10,
            forall|k: int|
                0 <= k < sources.len() - 1 ==> #[trigger] sources[k + 1] == sources[k] / 10,
            sources.len() > 0 ==> sources[0] == value && rest == sources.last() / 10,
            sources.len() == 0 ==> rest == value,
        decreases rest,
    {
        digits.push(rest % 10);
        proof {
            sources = sources.push(rest);
        }
        rest = rest / 10;
    }
    let mut text = String::from_str(digit_text(rest));
    let mut i: usize = digits.len();
    while i > 0
        invariant
            i <= digits@.len(),
            digits@.len() == sources.len(),
            forall|k: int| 0 <= k < sources.len() ==> #[trigger] sources[k] >= 10,
            forall|k: int| 0 <= k < sources.len() ==> digits@[k] == #[trigger] sources[k] % 10,
            forall|k: int|
                0 <= k < sources.len() - 1 ==> #[trigger] sources[k + 1] == sources[k] / 10,
            sources.len() > 0 ==> sources[0] == value,
            i == sources.len() ==> text@ == decimal(rest as nat),
            i == sources.len() && i > 0 ==> rest == sources.last() / 10,
            i < sources.len() ==> text@ == decimal(sources[i as int] as nat),
            sources.len() == 0 ==> rest == value,
        decreases i,
    {
        let ghost before = text@;
        proof {
            let source = sources[i - 1];
            if i == sources.len() {
                assert(sources.last() == source);
            } else {
                assert(sources[(i - 1) + 1] == source / 10);
            }
            assert(before == decimal((source / 10) as nat));
            assert(digits@[i - 1] == source % 10);
        }
        i = i - 1;
        text.append(digit_text(digits[i]));
        proof {
            let source = sources[i as int];
            assert(text@ =~= before.push(digit_char((source % 10) as nat)));
        }
    }
    text
}

/// The fields of a written listing as text, in the order of the columns.
pub open spec fn fields_of(record: CleanedRecordView) -> Seq<Seq<char>> {
    seq![
        decimal(record.neighbourhood_group_encoded as nat),
        decimal(record.neighbourhood_encoded as nat),
        decimal(record.room_type_encoded as nat),
        record.price_category,
        decimal(record.minimum_nights as nat),
        decimal(record.number_of_reviews as nat),
    ]
}

/// The text of each string of `fields`.
pub open spec fn field_texts(fields: Seq<String>) -> Seq<Seq<char>> {
    fields.map_values(|field: String| field@)
}

impl AirbnbCleanedRecord {
    /// Returns the fields of the listing as text, in the order of the
    /// columns: each number in decimal, and the price category as it is.
    pub fn to_fields(&self) -> (fields: Vec<String>)
        ensures
            field_texts(fields@) == fields_of(self@),
    {
        let mut fields: Vec<String> = Vec::new();
        fields.push(to_decimal(self.neighbourhood_group_encoded));
        fields.push(to_decimal(self.neighbourhood_encoded));
        fields.push(to_decimal(self.room_type_encoded as u64));
        fields.push(self.price_category.clone());
        fields.push(to_decimal(self.minimum_nights));
        fields.push(to_decimal(self.number_of_reviews));
        assert(field_texts(fields@) =~= fields_of(self@));
        fields
    }
}

} // verus!
