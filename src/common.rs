//! Shared data model: languages, lot and event kinds, and request bodies.

use vstd::prelude::*;

verus! {

/// Interface languages offered to producers.
#[derive(Debug, Clone, Copy, PartialEq, Eq, Structural, Hash)]
pub enum Language {
    English,
    Spanish,
    Portuguese,
    French,
    German,
    Italian,
    Russian,
    Chinese,
    Japanese,
    Korean,
}

/// The two-letter code of a language.
pub open spec fn code_of(lang: Language) -> Seq<char> {
    match lang {
        Language::English => seq!['e', 'n'],
        Language::Spanish => seq!['e', 's'],
        Language::Portuguese => seq!['p', 't'],
        Language::French => seq!['f', 'r'],
        Language::German => seq!['d', 'e'],
        Language::Italian => seq!['i', 't'],
        Language::Russian => seq!['r', 'u'],
        Language::Chinese => seq!['z', 'h'],
        Language::Japanese => seq!['j', 'a'],
        Language::Korean => seq!['k', 'o'],
    }
}

impl Language {
    /// The two-letter code of this language.
    pub fn to_str(&self) -> (r: &'static str)
        ensures
            r@ == code_of(*self),
    {
        let r = match self {
            Language::English => "en",
            Language::Spanish => "es",
            Language::Portuguese => "pt",
            Language::French => "fr",
            Language::German => "de",
            Language::Italian => "it",
            Language::Russian => "ru",
            Language::Chinese => "zh",
            Language::Japanese => "ja",
            Language::Korean => "ko",
        };
        proof {
            reveal_strlit("en");
            reveal_strlit("es");
            reveal_strlit("pt");
            reveal_strlit("fr");
            reveal_strlit("de");
            reveal_strlit("it");
            reveal_strlit("ru");
            reveal_strlit("zh");
            reveal_strlit("ja");
            reveal_strlit("ko");
        }
        r
    }

    /// The two-letter code of this language (same as `to_str`).
    pub fn code(&self) -> (r: &'static str)
        ensures
            r@ == code_of(*self),
    {
        self.to_str()
    }

    /// The language whose two-letter code is `s`, if any.
    pub fn from_code(s: &str) -> (r: Option<Language>)
        ensures
            r matches Some(l) ==> code_of(l) == s@,
            r is None ==> forall|l: Language| code_of(l) != s@,
    {
        if s.unicode_len() != 2 {
            return None;
        }
        let a = s.get_char(0);
        let b = s.get_char(1);
        let r = match (a, b) {
            ('e', 'n') => Some(Language::English),
            ('e', 's') => Some(Language::Spanish),
            ('p', 't') => Some(Language::Portuguese),
            ('f', 'r') => Some(Language::French),
            ('d', 'e') => Some(Language::German),
            ('i', 't') => Some(Language::Italian),
            ('r', 'u') => Some(Language::Russian),
            ('z', 'h') => Some(Language::Chinese),
            ('j', 'a') => Some(Language::Japanese),
            ('k', 'o') => Some(Language::Korean),
            _ => None,
        };
        proof {
            if let Some(l) = r {
                assert(code_of(l) =~= s@);
            } else {
                assert forall|l: Language| code_of(l) != s@ by {
                    if code_of(l) == s@ {
                        assert(s@[0] == code_of(l)[0] && s@[1] == code_of(l)[1]);
                    }
                }
            }
        }
        r
    }
}

/// Parsing a code back gives the language it was written from.
pub proof fn lemma_code_round_trip(lang: Language, other: Language)
    ensures
        code_of(lang) == code_of(other) ==> lang == other,
{
    if code_of(lang) == code_of(other) {
        assert(code_of(lang)[0] == code_of(other)[0]);
        assert(code_of(lang)[1] == code_of(other)[1]);
    }
}

impl Default for Language {
    /// Spanish is the language a new account starts with.
    fn default() -> (r: Language)
        ensures
            r == Language::Spanish,
    {
        Language::Spanish
    }
}

impl std::str::FromStr for Language {
    type Err = ();

    fn from_str(s: &str) -> Result<Language, ()> {
        match Language::from_code(s) {
            Some(l) => Ok(l),
            None => Err(()),
        }
    }
}

/// Kinds of events recorded against a lot.
#[derive(Debug, Clone, Copy, PartialEq, Eq, Structural)]
pub enum EventType {
    Planting,
    Fertilization,
    Irrigation,
    PestControl,
    Harvest,
    Other,
}

/// Kinds of crop a lot can hold.
#[derive(Debug, Clone, Copy, PartialEq, Eq, Structural)]
pub enum CropType {
    Grain,
    Vegetable,
    Fruit,
    Other,
}

/// Where a lot stands in its life.
#[derive(Debug, Clone, Copy, PartialEq, Eq, Structural)]
pub enum LotStatus {
    Registered,
    InProgress,
    Harvested,
    Completed,
    Cancelled,
}

/// Review state of a producer account, independent of its active flag.
#[derive(Debug, Clone, Copy, PartialEq, Eq, Structural)]
pub enum ProducerStatus {
    Pending,
    Approved,
    Rejected,
}

/// Body of a registration request.
#[derive(Debug, Clone)]
pub struct RegisterProducerRequest {
    pub full_name: String,
    pub email: String,
    pub password: String,
    pub farm_name: Option<String>,
    pub phone: Option<String>,
    pub language_preference: Option<Language>,
}

/// Body of a login request.
#[derive(Debug, Clone)]
pub struct LoginRequest {
    pub email: String,
    pub password: String,
}

/// What a successful login or registration hands back.
#[derive(Debug, Clone)]
pub struct TokenResponse {
    pub access_token: String,
    pub token_type: String,
    pub expires_in: i64,
}

/// Profile changes to a producer; `None` leaves a field as it is.
#[derive(Debug, Clone)]
pub struct UpdateProducerRequest {
    pub full_name: Option<String>,
    pub farm_name: Option<String>,
    pub phone: Option<String>,
    pub language_preference: Option<Language>,
    pub is_active: Option<bool>,
    pub status: Option<ProducerStatus>,
}

/// Filters for listing producers.
#[derive(Debug, Clone, Default)]
pub struct ProducerQuery {
    pub name: Option<String>,
    pub email: Option<String>,
    pub is_active: Option<bool>,
    pub language: Option<Language>,
    pub status: Option<ProducerStatus>,
    pub sort_by: Option<String>,
    pub sort_order: Option<String>,
    pub page: Option<i64>,
    pub per_page: Option<i64>,
}

/// Filters for listing lots.
#[derive(Debug, Clone, Default)]
pub struct LotQuery {
    pub product_name: Option<String>,
    pub status: Option<LotStatus>,
    pub crop_type: Option<CropType>,
    pub sort_by: Option<String>,
    pub sort_order: Option<String>,
    pub page: Option<i64>,
    pub per_page: Option<i64>,
}

/// Changes to a user's contact data.
#[derive(Debug, Clone)]
pub struct UpdateUserRequest {
    pub name: Option<String>,
    pub phone: Option<String>,
    pub address: Option<String>,
}

/// Free-text search parameter of a listing.
#[derive(Debug, Clone, Default)]
pub struct SearchParams {
    pub search: Option<String>,
}

/// Page requested by a listing; pages count from 1.
#[derive(Debug, Clone, Copy, Default)]
pub struct PaginationParams {
    pub page: Option<i64>,
    pub per_page: Option<i64>,
}

/// Page used when none is given.
pub const DEFAULT_PAGE: i64 = 1;

/// Page size used when none is given.
pub const DEFAULT_PER_PAGE: i64 = 10;

/// The page in force: the given one, or the default.
pub open spec fn page_of(p: PaginationParams) -> int {
    match p.page {
        Some(v) => v as int,
        None => DEFAULT_PAGE as int,
    }
}

/// The page size in force: the given one, or the default.
pub open spec fn per_page_of(p: PaginationParams) -> int {
    match p.per_page {
        Some(v) => v as int,
        None => DEFAULT_PER_PAGE as int,
    }
}

/// The number of rows before the page in force.
pub open spec fn offset_of(p: PaginationParams) -> int {
    (page_of(p) - 1) * per_page_of(p)
}

impl PaginationParams {
    /// The page, the page size and the number of rows to skip,
    /// `(page - 1) * per_page`; `None` when that does not fit an `i64`.
    pub fn window(&self) -> (r: Option<(i64, i64, i64)>)
        ensures
            r matches Some((a, b, c)) ==> a == page_of(*self) && b == per_page_of(*self) && c == offset_of(
                *self,
            ),
            r is Some <==> i64::MIN <= offset_of(*self) <= i64::MAX,
    {
        let page: i64 = match self.page {
            Some(v) => v,
            None => DEFAULT_PAGE,
        };
        let per_page: i64 = match self.per_page {
            Some(v) => v,
            None => DEFAULT_PER_PAGE,
        };
        let prev = page as i128 - 1;
        proof {
            assert(-0x4000_0000_0000_0000_8000_0000_0000_0000 <= prev * per_page
                <= 0x4000_0000_0000_0000_8000_0000_0000_0000) by (nonlinear_arith)
                requires
                    -0x8000_0000_0000_0001 <= prev <= 0x7fff_ffff_ffff_fffe,
                    -0x8000_0000_0000_0000 <= per_page <= 0x7fff_ffff_ffff_ffff,
            ;
        }
        let offset = prev * (per_page as i128);
        if offset < i64::MIN as i128 || offset > i64::MAX as i128 {
            None
        } else {
            Some((page, per_page, offset as i64))
        }
    }
}

} // verus!
