//! The time and fresh identifiers.
use vstd::prelude::*;

verus! {

/// Whether `now` is a time that the clock gave, in seconds since 1970. That a time
/// is one is known of what the clock was read for and of nothing else: a time
/// that was made up is not.
pub closed spec fn clock_reading(now: i64) -> bool {
    &&& -8_334_601_228_800 <= now <= 8_210_266_876_799
    &&& arbitrary::<spec_fn(i64) -> bool>()(now)
}

/// The clock gives times of the years from -262143 to 262142.
pub proof fn law_clock_keeps_its_range(now: i64)
    requires
        clock_reading(now),
    ensures
        -8_334_601_228_800 <= now <= 8_210_266_876_799,
{
}

/// A lower-case hexadecimal digit.
pub open spec fn lower_hex(c: char) -> bool {
    '0' <= c <= '9' || 'a' <= c <= 'f'
}

/// Whether `text` is a random UUID that was drawn. As with the time, this is known
/// of what was drawn and of nothing else.
pub closed spec fn uuid_v4_text(text: Seq<char>) -> bool {
    &&& uuid_v4_form(text)
    &&& arbitrary::<spec_fn(Seq<char>) -> bool>()(text)
}

/// The form of a random UUID: lower-case hexadecimal digits in groups of eight,
/// four, four, four and twelve, with the version and the variant in their places.
pub open spec fn uuid_v4_form(text: Seq<char>) -> bool {
    &&& text.len() == 36
    &&& forall|i: int|
        0 <= i < 36 ==> if i == 8 || i == 13 || i == 18 || i == 23 {
            #[trigger] text[i] == '-'
        } else {
            lower_hex(text[i])
        }
    &&& text[14] == '4'
    &&& text[19] == '8' || text[19] == '9' || text[19] == 'a' || text[19] == 'b'
}

/// A UUID that was drawn has the form of one.
pub proof fn law_uuid_has_its_form(text: Seq<char>)
    requires
        uuid_v4_text(text),
    ensures
        uuid_v4_form(text),
{
}

/// `chrono::Utc::now` and `DateTime::timestamp`: the seconds since 1970, which
/// lie in the range of `chrono`'s dates. That the clock gave the time is known from
/// here alone; which time it is, and that a later reading is no earlier, is left
/// open. `Utc::now` panics where the system's clock is set to a time before 1970.
#[verifier::external_body]
pub(crate) fn utc_timestamp() -> (now: i64)
    ensures
        clock_reading(now),
{
    chrono::Utc::now().timestamp()
}

/// `uuid::Uuid::new_v4`, written by its `Display`: a fresh random UUID. That it was
/// drawn is known from here alone; which one it is is left open.
#[verifier::external_body]
pub(crate) fn random_uuid() -> (text: String)
    ensures
        uuid_v4_text(text@),
{
    uuid::Uuid::new_v4().to_string()
}

} // verus!
