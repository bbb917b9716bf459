//! Interface messages in the supported languages.

use crate::common::{code_of, Language};
use vstd::prelude::*;

verus! {

/// The two-letter code of `lang`.
pub fn language_code(lang: &Language) -> (r: &'static str)
    ensures
        r@ == code_of(*lang),
{
    lang.to_str()
}

/// The name of a language in that language.
pub open spec fn name_of(lang: Language) -> Seq<char> {
    match lang {
        Language::English => "English"@,
        Language::Spanish => "Español"@,
        Language::Portuguese => "Português"@,
        Language::French => "Français"@,
        Language::German => "Deutsch"@,
        Language::Italian => "Italiano"@,
        Language::Russian => "Русский"@,
        Language::Chinese => "中文"@,
        Language::Japanese => "日本語"@,
        Language::Korean => "한국어"@,
    }
}

/// The name of `lang` in that language.
pub fn language_name(lang: &Language) -> (r: &'static str)
    ensures
        r@ == name_of(*lang),
{
    match lang {
        Language::English => "English",
        Language::Spanish => "Español",
        Language::Portuguese => "Português",
        Language::French => "Français",
        Language::German => "Deutsch",
        Language::Italian => "Italiano",
        Language::Russian => "Русский",
        Language::Chinese => "中文",
        Language::Japanese => "日本語",
        Language::Korean => "한국어",
    }
}

/// Message entries in the order they were added: key, then text.
pub type Entries = Seq<(Seq<char>, Seq<char>)>;

/// The text of `key`: the latest entry for it wins.
pub open spec fn lookup(entries: Entries, key: Seq<char>) -> Option<Seq<char>>
    decreases entries.len(),
{
    if entries.len() == 0 {
        None
    } else if entries.last().0 == key {
        Some(entries.last().1)
    } else {
        lookup(entries.drop_last(), key)
    }
}

/// The messages of one language.
#[derive(Debug, Clone)]
pub struct Translations {
    pub language: Language,
    pub messages: Vec<(String, String)>,
}

impl View for Translations {
    type V = Entries;

    open spec fn view(&self) -> Entries {
        Seq::new(self.messages@.len(), |i: int| (self.messages@[i].0@, self.messages@[i].1@))
    }
}

impl Translations {
    /// No messages yet, for `language`.
    pub fn new(language: Language) -> (r: Translations)
        ensures
            r.language == language,
            r@ == Seq::<(Seq<char>, Seq<char>)>::empty(),
    {
        let r = Translations { language, messages: Vec::new() };
        assert(r@ =~= Seq::<(Seq<char>, Seq<char>)>::empty());
        r
    }

    /// Sets the text of `key` to `value`; a later entry replaces an earlier one.
    pub fn add(&mut self, key: &str, value: &str)
        ensures
            final(self).language == old(self).language,
            final(self)@ == old(self)@.push((key@, value@)),
    {
        let ghost before = self@;
        self.messages.push((key.to_owned(), value.to_owned()));
        assert(self@ =~= before.push((key@, value@)));
    }

    /// The text of `key`, if it has one.
    pub fn get(&self, key: &str) -> (r: Option<&str>)
        ensures
            match lookup(self@, key@) {
                Some(v) => r matches Some(s) && s@ == v,
                None => r is None,
            },
    {
        let wanted = key.to_owned();
        let mut i: usize = self.messages.len();
        assert(self@.subrange(0, i as int) =~= self@);
        while i > 0
            invariant
                i <= self.messages@.len(),
                self@.len() == self.messages@.len(),
                wanted@ == key@,
                lookup(self@, key@) == lookup(self@.subrange(0, i as int), key@),
            decreases i,
        {
            let ghost prefix = self@.subrange(0, i as int);
            assert(prefix.drop_last() =~= self@.subrange(0, i - 1));
            assert(prefix.last() == self@[i - 1]);
            assert(self@[i - 1] == (self.messages@[i - 1].0@, self.messages@[i - 1].1@));
            if self.messages[i - 1].0 == wanted {
                return Some(self.messages[i - 1].1.as_str());
            }
            i = i - 1;
        }
        assert(self@.subrange(0, 0) =~= Seq::<(Seq<char>, Seq<char>)>::empty());
        None
    }
}

pub open spec fn spanish_entries() -> Entries {
    seq![
        ("app.title"@, "Kairos - Trazabilidad Agrícola"@),
        ("auth.login"@, "Iniciar Sesión"@),
        ("auth.register"@, "Registrarse"@),
        ("auth.email"@, "Correo Electrónico"@),
        ("auth.password"@, "Contraseña"@),
        ("auth.full_name"@, "Nombre Completo"@),
        ("auth.farm_name"@, "Nombre de la Finca"@),
        ("auth.phone"@, "Teléfono"@),
        ("lots.create"@, "Crear Lote"@),
        ("lots.list"@, "Lista de Lotes"@),
        ("lots.product_name"@, "Nombre del Producto"@),
        ("lots.crop_type"@, "Tipo de Cultivo"@),
        ("lots.estimated_quantity"@, "Cantidad Estimada"@),
        ("lots.unit_of_measure"@, "Unidad de Medida"@),
        ("lots.estimated_harvest_date"@, "Fecha Estimada de Cosecha"@),
    ]
}

pub open spec fn portuguese_entries() -> Entries {
    seq![
        ("app.title"@, "Kairos - Rastreabilidade Agrícola"@),
        ("auth.login"@, "Entrar"@),
        ("auth.register"@, "Registrar"@),
        ("auth.email"@, "E-mail"@),
        ("auth.password"@, "Senha"@),
        ("auth.full_name"@, "Nome Completo"@),
        ("auth.farm_name"@, "Nome da Fazenda"@),
        ("auth.phone"@, "Telefone"@),
        ("lots.create"@, "Criar Lote"@),
        ("lots.list"@, "Lista de Lotes"@),
        ("lots.product_name"@, "Nome do Produto"@),
        ("lots.crop_type"@, "Tipo de Cultura"@),
        ("lots.estimated_quantity"@, "Quantidade Estimada"@),
        ("lots.unit_of_measure"@, "Unidade de Medida"@),
        ("lots.estimated_harvest_date"@, "Data Estimada de Colheita"@),
    ]
}

pub open spec fn english_entries() -> Entries {
    seq![
        ("app.title"@, "Kairos - Agricultural Traceability"@),
        ("auth.login"@, "Login"@),
        ("auth.register"@, "Register"@),
        ("auth.email"@, "Email"@),
        ("auth.password"@, "Password"@),
        ("auth.full_name"@, "Full Name"@),
        ("auth.farm_name"@, "Farm Name"@),
        ("auth.phone"@, "Phone"@),
        ("lots.create"@, "Create Lot"@),
        ("lots.list"@, "Lot List"@),
        ("lots.product_name"@, "Product Name"@),
        ("lots.crop_type"@, "Crop Type"@),
        ("lots.estimated_quantity"@, "Estimated Quantity"@),
        ("lots.unit_of_measure"@, "Unit of Measure"@),
        ("lots.estimated_harvest_date"@, "Estimated Harvest Date"@),
    ]
}

/// The messages held for `lang`: Spanish, Portuguese and English have some.
pub open spec fn catalog_of(lang: Language) -> Option<Entries> {
    match lang {
        Language::Spanish => Some(spanish_entries()),
        Language::Portuguese => Some(portuguese_entries()),
        Language::English => Some(english_entries()),
        _ => None,
    }
}

/// The text shown for `key` in `lang`: that language's text, else the
/// English one, else the key itself.
pub open spec fn translated(lang: Language, key: Seq<char>) -> Seq<char> {
    let english = match lookup(english_entries(), key) {
        Some(v) => v,
        None => key,
    };
    match catalog_of(lang) {
        Some(entries) => match lookup(entries, key) {
            Some(v) => v,
            None => english,
        },
        None => english,
    }
}

fn spanish_catalog() -> (r: Translations)
    ensures
        r.language == Language::Spanish,
        r@ == spanish_entries(),
{
    let mut t = Translations::new(Language::Spanish);
    t.add("app.title", "Kairos - Trazabilidad Agrícola");
    t.add("auth.login", "Iniciar Sesión");
    t.add("auth.register", "Registrarse");
    t.add("auth.email", "Correo Electrónico");
    t.add("auth.password", "Contraseña");
    t.add("auth.full_name", "Nombre Completo");
    t.add("auth.farm_name", "Nombre de la Finca");
    t.add("auth.phone", "Teléfono");
    t.add("lots.create", "Crear Lote");
    t.add("lots.list", "Lista de Lotes");
    t.add("lots.product_name", "Nombre del Producto");
    t.add("lots.crop_type", "Tipo de Cultivo");
    t.add("lots.estimated_quantity", "Cantidad Estimada");
    t.add("lots.unit_of_measure", "Unidad de Medida");
    t.add("lots.estimated_harvest_date", "Fecha Estimada de Cosecha");
    assert(t@ =~= spanish_entries());
    t
}

fn portuguese_catalog() -> (r: Translations)
    ensures
        r.language == Language::Portuguese,
        r@ == portuguese_entries(),
{
    let mut t = Translations::new(Language::Portuguese);
    t.add("app.title", "Kairos - Rastreabilidade Agrícola");
    t.add("auth.login", "Entrar");
    t.add("auth.register", "Registrar");
    t.add("auth.email", "E-mail");
    t.add("auth.password", "Senha");
    t.add("auth.full_name", "Nome Completo");
    t.add("auth.farm_name", "Nome da Fazenda");
    t.add("auth.phone", "Telefone");
    t.add("lots.create", "Criar Lote");
    t.add("lots.list", "Lista de Lotes");
    t.add("lots.product_name", "Nome do Produto");
    t.add("lots.crop_type", "Tipo de Cultura");
    t.add("lots.estimated_quantity", "Quantidade Estimada");
    t.add("lots.unit_of_measure", "Unidade de Medida");
    t.add("lots.estimated_harvest_date", "Data Estimada de Colheita");
    assert(t@ =~= portuguese_entries());
    t
}

fn english_catalog() -> (r: Translations)
    ensures
        r.language == Language::English,
        r@ == english_entries(),
{
    let mut t = Translations::new(Language::English);
    t.add("app.title", "Kairos - Agricultural Traceability");
    t.add("auth.login", "Login");
    t.add("auth.register", "Register");
    t.add("auth.email", "Email");
    t.add("auth.password", "Password");
    t.add("auth.full_name", "Full Name");
    t.add("auth.farm_name", "Farm Name");
    t.add("auth.phone", "Phone");
    t.add("lots.create", "Create Lot");
    t.add("lots.list", "Lot List");
    t.add("lots.product_name", "Product Name");
    t.add("lots.crop_type", "Crop Type");
    t.add("lots.estimated_quantity", "Estimated Quantity");
    t.add("lots.unit_of_measure", "Unit of Measure");
    t.add("lots.estimated_harvest_date", "Estimated Harvest Date");
    assert(t@ =~= english_entries());
    t
}

/// The messages held for `language`, if it has any.
pub fn get_language_translations(language: Language) -> (r: Option<Translations>)
    ensures
        match catalog_of(language) {
            Some(entries) => r matches Some(t) && t@ == entries && t.language == language,
            None => r is None,
        },
{
    match language {
        Language::Spanish => Some(spanish_catalog()),
        Language::Portuguese => Some(portuguese_catalog()),
        Language::English => Some(english_catalog()),
        _ => None,
    }
}

/// The text shown for `key` in `language`, falling back to English and then
/// to the key itself.
pub fn get_translation(language: Language, key: &str) -> (r: String)
    ensures
        r@ == translated(language, key@),
{
    if let Some(table) = get_language_translations(language) {
        if let Some(text) = table.get(key) {
            return text.to_owned();
        }
    }
    let english = english_catalog();
    match english.get(key) {
        Some(text) => text.to_owned(),
        None => key.to_owned(),
    }
}

/// The language whose two-letter code is `s`, if any.
pub open spec fn language_of_code(s: Seq<char>) -> Option<Language> {
    if exists|l: Language| code_of(l) == s {
        Some(choose|l: Language| code_of(l) == s)
    } else {
        None
    }
}

/// What `str::to_lowercase` makes of a text.
pub uninterp spec fn lower_of(s: Seq<char>) -> Seq<char>;

/// Relies on `str::to_lowercase`: the result depends on the characters alone.
#[verifier::external_body]
fn lowercase(s: &str) -> (r: String)
    ensures
        r@ == lower_of(s@),
{
    s.to_lowercase()
}

pub open spec fn starts_with(s: Seq<char>, prefix: Seq<char>) -> bool {
    prefix.len() <= s.len() && s.subrange(0, prefix.len() as int) == prefix
}

/// The language a lower-case browser language tag asks for: Spanish,
/// Portuguese and English are recognised by the tag's first two letters.
pub open spec fn tag_language(tag: Seq<char>) -> Option<Language> {
    if starts_with(tag, code_of(Language::Spanish)) {
        Some(Language::Spanish)
    } else if starts_with(tag, code_of(Language::Portuguese)) {
        Some(Language::Portuguese)
    } else if starts_with(tag, code_of(Language::English)) {
        Some(Language::English)
    } else {
        None
    }
}

/// The language of the first browser tag that names a recognised one.
pub open spec fn first_tag_language(tags: Seq<Seq<char>>) -> Option<Language>
    decreases tags.len(),
{
    if tags.len() == 0 {
        None
    } else {
        match tag_language(lower_of(tags[0])) {
            Some(l) => Some(l),
            None => first_tag_language(tags.drop_first()),
        }
    }
}

/// The interface language to start with: the saved choice when it is a known
/// code, else the first recognised browser language, else Spanish.
pub open spec fn default_language_of(saved: Option<Seq<char>>, tags: Seq<Seq<char>>) -> Language {
    let from_saved = match saved {
        Some(s) => language_of_code(s),
        None => None,
    };
    match from_saved {
        Some(l) => l,
        None => match first_tag_language(tags) {
            Some(l) => l,
            None => Language::Spanish,
        },
    }
}

fn has_prefix(s: &Vec<char>, a: char, b: char) -> (r: bool)
    ensures
        r == starts_with(s@, seq![a, b]),
{
    if s.len() < 2 {
        return false;
    }
    let r = s[0] == a && s[1] == b;
    assert(r == (s@.subrange(0, 2) =~= seq![a, b]));
    r
}

/// The language a lower-case browser language tag asks for.
pub fn language_from_tag(lowered: &str) -> (r: Option<Language>)
    ensures
        r == tag_language(lowered@),
{
    let chars = crate::text::chars_of(lowered);
    if has_prefix(&chars, 'e', 's') {
        Some(Language::Spanish)
    } else if has_prefix(&chars, 'p', 't') {
        Some(Language::Portuguese)
    } else if has_prefix(&chars, 'e', 'n') {
        Some(Language::English)
    } else {
        None
    }
}

/// The view of a list of texts.
pub open spec fn texts_of(v: Seq<String>) -> Seq<Seq<char>> {
    Seq::new(v.len(), |i: int| v[i]@)
}

/// The interface language to start with, from the saved choice and the
/// browser's language tags in order of preference.
pub fn get_default_language(saved: Option<&str>, browser_languages: &Vec<String>) -> (r: Language)
    ensures
        r == default_language_of(
            match saved {
                Some(s) => Some(s@),
                None => None,
            },
            texts_of(browser_languages@),
        ),
{
    if let Some(s) = saved {
        if let Some(l) = Language::from_code(s) {
            proof {
                assert(code_of(l) == s@);
                let k = choose|k: Language| code_of(k) == s@;
                crate::common::lemma_code_round_trip(k, l);
            }
            return l;
        }
    }
    let ghost saved_view = match saved {
        Some(s) => Some(s@),
        None => None,
    };
    assert(match saved_view {
        Some(s) => language_of_code(s) is None,
        None => true,
    });
    let ghost tags = texts_of(browser_languages@);
    assert(tags.subrange(0, tags.len() as int) =~= tags);
    let mut i: usize = 0;
    while i < browser_languages.len()
        invariant
            i <= browser_languages@.len(),
            saved_view == match saved {
                Some(s) => Some(s@),
                None => None,
            },
            match saved_view {
                Some(s) => language_of_code(s) is None,
                None => true,
            },
            tags == texts_of(browser_languages@),
            first_tag_language(tags) == first_tag_language(tags.subrange(i as int, tags.len() as int)),
        decreases browser_languages.len() - i,
    {
        let ghost rest = tags.subrange(i as int, tags.len() as int);
        assert(rest.drop_first() =~= tags.subrange(i + 1, tags.len() as int));
        assert(rest[0] == browser_languages@[i as int]@);
        let lowered = lowercase(browser_languages[i].as_str());
        if let Some(l) = language_from_tag(lowered.as_str()) {
            return l;
        }
        i = i + 1;
    }
    assert(tags.subrange(i as int, tags.len() as int) =~= Seq::<Seq<char>>::empty());
    Language::Spanish
}

/// The short texts of the interface: the title, and a greeting in Spanish,
/// Portuguese or (for every other language) English; any other key is shown
/// as it is.
pub open spec fn short_text(language: Language, key: Seq<char>) -> Seq<char> {
    if key == "app.title"@ {
        "Kairos"@
    } else if key == "app.welcome"@ {
        match language {
            Language::Spanish => "Bienvenido"@,
            Language::Portuguese => "Bem-vindo"@,
            _ => "Welcome"@,
        }
    } else {
        key
    }
}

/// The short interface text of `key` in `language`.
pub fn use_translation(language: Language, key: &str) -> (r: String)
    ensures
        r@ == short_text(language, key@),
{
    let wanted = key.to_owned();
    if wanted == "app.title".to_owned() {
        "Kairos".to_owned()
    } else if wanted == "app.welcome".to_owned() {
        match language {
            Language::Spanish => "Bienvenido".to_owned(),
            Language::Portuguese => "Bem-vindo".to_owned(),
            _ => "Welcome".to_owned(),
        }
    } else {
        wanted
    }
}

} // verus!
