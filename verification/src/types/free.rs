//! Types for the free public numbers API.
use vstd::prelude::*;

verus! {

/// Country entry from free country list.
#[derive(Debug, Clone, PartialEq)]
pub struct FreeCountry {
    /// Country code.
    pub country: i64,
    /// Localized country name.
    pub country_text: String,
    /// Original country name.
    pub country_original: Option<String>,
}

/// Free phone number entry.
#[derive(Debug, Clone, PartialEq)]
pub struct FreeNumber {
    /// Max date string.
    pub maxdate: Option<String>,
    /// Number (the API sends a string or an integer).
    pub number: String,
    /// Country code.
    pub country: i64,
    /// Last update.
    pub updated_at: Option<String>,
    /// Human-readable date.
    pub data_humans: Option<String>,
    /// Full international number.
    pub full_number: Option<String>,
    /// Country label.
    pub country_text: Option<String>,
}

/// Free SMS message.
#[derive(Debug, Clone, PartialEq)]
pub struct FreeMessage {
    /// Message text.
    pub text: String,
    /// Sender number.
    pub in_number: Option<String>,
    /// Receiver number (the API sends a string or an integer).
    pub my_number: Option<String>,
    /// Created at.
    pub created_at: Option<String>,
    /// Human-readable date.
    pub data_humans: Option<String>,
}

/// Number entry inside `free_list`.
#[derive(Debug, Clone, PartialEq)]
pub struct FreeListNumber {
    /// Country code.
    pub country: i64,
    /// Original country name.
    pub country_original: Option<String>,
    /// Human-readable date.
    pub data_humans: Option<String>,
    /// Full number.
    pub full_number: Option<String>,
    /// Archive flag.
    pub is_archive: Option<bool>,
}

/// Paginated messages block inside `free_list`.
#[derive(Debug, Clone, PartialEq)]
pub struct FreeMessagesPage {
    /// Current page.
    pub current_page: Option<i64>,
    /// From index.
    pub from: Option<i64>,
    /// Last page.
    pub last_page: Option<i64>,
    /// Per page.
    pub per_page: Option<i64>,
    /// To index.
    pub to: Option<i64>,
    /// Total.
    pub total: Option<i64>,
    /// Number filter.
    pub number: Option<String>,
    /// Country filter.
    pub country: Option<i64>,
    /// Messages.
    pub data: Vec<FreeMessage>,
}

/// Combined free list response.
#[derive(Debug, Clone, PartialEq)]
pub struct FreeListResponse {
    /// Countries.
    pub countries: Vec<FreeCountry>,
    /// Numbers map.
    pub numbers: std::collections::HashMap<String, FreeListNumber>,
    /// Messages page.
    pub messages: Option<FreeMessagesPage>,
}

} // verus!
