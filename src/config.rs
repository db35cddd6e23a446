use vstd::prelude::*;
use crate::text::string_of;

verus! {

/// JSON keys under which columns are published.
pub const ID: &'static str = "id";
pub const NAME: &'static str = "name";
pub const ACTIVE: &'static str = "active";
pub const CONTACT: &'static str = "contact";
pub const ADDRESS: &'static str = "address";
pub const REP: &'static str = "rep";
pub const CONTACT_ID: &'static str = "contactId";
pub const ADDRESS_ID: &'static str = "addressId";
pub const CATEGORY_ID: &'static str = "categoryId";
pub const REP_ID: &'static str = "repId";
pub const EMAIL: &'static str = "email";
pub const NUMBER: &'static str = "number";
pub const ADDRESS_LINE1: &'static str = "line1";
pub const ADDRESS_LINE2: &'static str = "line2";
pub const ADDRESS_TOWN: &'static str = "town";
pub const ADDRESS_COUNCIL: &'static str = "council";
pub const ADDRESS_POSTCODE: &'static str = "postcode";
pub const TITLE: &'static str = "title";
pub const FIRST_NAME: &'static str = "firstName";
pub const LAST_NAME: &'static str = "lastName";
pub const CATEGORY_TYPE: &'static str = "category";

/// Keys of the response envelope.
pub const CODE: &'static str = "code";
pub const SUCCESS: &'static str = "success";
pub const PAYLOAD: &'static str = "payload";
pub const MESSAGE: &'static str = "message";

/// The JSON keys of the store's columns, as owned strings.
pub struct SqliteColumnNames {
    pub id: String,
    pub name: String,
    pub active: String,
    pub contact: String,
    pub contact_id: String,
    pub address: String,
    pub address_id: String,
    pub category_id: String,
    pub rep: String,
    pub rep_id: String,
    pub email: String,
    pub number: String,
    pub address_line1: String,
    pub address_line2: String,
    pub address_town: String,
    pub address_council: String,
    pub address_postcode: String,
    pub title: String,
    pub first_name: String,
    pub last_name: String,
    pub category_type: String,
}

impl SqliteColumnNames {
    pub fn new() -> (r: SqliteColumnNames)
        ensures
            r.id@ == ID@,
            r.name@ == NAME@,
            r.active@ == ACTIVE@,
            r.contact@ == CONTACT@,
            r.contact_id@ == CONTACT_ID@,
            r.address@ == ADDRESS@,
            r.address_id@ == ADDRESS_ID@,
            r.category_id@ == CATEGORY_ID@,
            r.rep@ == REP@,
            r.rep_id@ == REP_ID@,
            r.email@ == EMAIL@,
            r.number@ == NUMBER@,
            r.address_line1@ == ADDRESS_LINE1@,
            r.address_line2@ == ADDRESS_LINE2@,
            r.address_town@ == ADDRESS_TOWN@,
            r.address_council@ == ADDRESS_COUNCIL@,
            r.address_postcode@ == ADDRESS_POSTCODE@,
            r.title@ == TITLE@,
            r.first_name@ == FIRST_NAME@,
            r.last_name@ == LAST_NAME@,
            r.category_type@ == CATEGORY_TYPE@,
    {
        SqliteColumnNames {
            id: string_of(ID),
            name: string_of(NAME),
            active: string_of(ACTIVE),
            contact: string_of(CONTACT),
            contact_id: string_of(CONTACT_ID),
            address: string_of(ADDRESS),
            address_id: string_of(ADDRESS_ID),
            category_id: string_of(CATEGORY_ID),
            rep: string_of(REP),
            rep_id: string_of(REP_ID),
            email: string_of(EMAIL),
            number: string_of(NUMBER),
            address_line1: string_of(ADDRESS_LINE1),
            address_line2: string_of(ADDRESS_LINE2),
            address_town: string_of(ADDRESS_TOWN),
            address_council: string_of(ADDRESS_COUNCIL),
            address_postcode: string_of(ADDRESS_POSTCODE),
            title: string_of(TITLE),
            first_name: string_of(FIRST_NAME),
            last_name: string_of(LAST_NAME),
            category_type: string_of(CATEGORY_TYPE),
        }
    }
}

} // verus!
