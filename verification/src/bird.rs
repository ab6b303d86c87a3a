//! The catalog model: master records, per-locale overlays and the localized
//! view that merges the two field by field.
use vstd::prelude::*;
use vstd::string::StringExecFns;

verus! {

/// The closed set of languages for which overlays may exist.
#[derive(Debug, Copy, Clone, PartialEq, Eq, Hash, Structural)]
pub enum Locale {
    De,
    Dk,
    Es,
    Fr,
    Jp,
    Lt,
    Nl,
    Pl,
    Pt,
    Tr,
    Uk,
}

/// The wingspan column of the master data, which holds whole numbers,
/// fractional numbers and free text side by side.
///
/// A fractional number is kept as its IEEE-754 double-precision bit pattern.
#[derive(Debug, PartialEq, Eq)]
pub enum Wingspan {
    Integer(i64),
    FloatBits(u64),
    Text(String),
}

/// One language-neutral catalog entry.
///
/// Fractional columns are kept as IEEE-754 single-precision bit patterns, so
/// that a record passes through the library bit for bit.
#[derive(Debug, PartialEq, Eq)]
pub struct BirdMaster {
    pub id: i32,
    pub scientific_name: String,
    pub common_name: String,
    pub flavor_text: String,
    pub set: String,
    pub color: Option<String>,
    pub nest_type: String,
    pub power_text: Option<String>,
    pub power_is_predator: bool,
    pub power_is_flocking: bool,
    pub power_is_bonus_card_related: bool,
    pub victory_points: u32,
    pub egg_limit: u32,
    pub wingspan: Wingspan,
    pub can_live_forest: bool,
    pub can_live_grassland: bool,
    pub can_live_wetland: bool,
    pub food_invertebrate: Option<u32>,
    pub food_seed: Option<u32>,
    pub food_fish: Option<u32>,
    pub food_fruit: Option<u32>,
    pub food_rodent: Option<u32>,
    pub food_nectar: Option<u32>,
    pub food_wild: Option<u32>,
    pub food_cost_is_either: bool,
    pub food_cost_has_note: bool,
    pub lives_in_north_america: bool,
    pub lives_in_central_america: bool,
    pub lives_in_south_america: bool,
    pub lives_in_europe: bool,
    pub lives_in_asia: bool,
    pub lives_in_africa: bool,
    pub lives_in_oceania: bool,
}

/// One record's texts in another language, as far as they exist; an absent field falls back to the
/// master record.
#[derive(Debug, PartialEq, Eq)]
pub struct BirdI18n {
    pub scientific_name: Option<String>,
    pub common_name: Option<String>,
    pub power_text: Option<String>,
    pub flavor_text: Option<String>,
}

/// The localized, response-facing projection of one record.
#[derive(Debug, PartialEq, Eq)]
pub struct BirdResult {
    pub scientific_name: String,
    pub common_name: String,
    pub power_text: String,
    pub flavor_text: String,
    pub info: BirdMaster,
}

/// One overlay of a record, with the locale it belongs to.
#[derive(Debug, PartialEq, Eq)]
pub struct LocaleEntry {
    pub locale: Locale,
    pub overlay: BirdI18n,
}

/// A master record together with the overlays that exist for it.
///
/// `i8n` is searched front to back, so the first entry of a locale is the
/// overlay of that locale.
#[derive(Debug, PartialEq, Eq)]
pub struct Bird {
    pub master: BirdMaster,
    pub i8n: Vec<LocaleEntry>,
}

/// Reads a yes-or-no column of the master data: a cell says yes exactly when
/// it holds the text `X`. An empty cell, or one that holds no text, says no.
pub fn x_value(cell: Option<&String>) -> (r: bool)
    ensures
        r == (cell is Some && cell.unwrap()@ == "X"@),
{
    match cell {
        Some(text) => *text == String::from_str("X"),
        None => false,
    }
}

impl Wingspan {
    /// Classifies a wingspan cell from what its readings gave: a whole
    /// number where it reads as one, else a fractional number where it reads
    /// as one, else its text as it stands.
    pub fn from_readings(whole: Option<i64>, fraction_bits: Option<u64>, text: String) -> (r: Self)
        ensures
            r == match (whole, fraction_bits) {
                (Some(n), _) => Wingspan::Integer(n),
                (None, Some(b)) => Wingspan::FloatBits(b),
                (None, None) => Wingspan::Text(text),
            },
    {
        match whole {
            Some(n) => Wingspan::Integer(n),
            None => match fraction_bits {
                Some(b) => Wingspan::FloatBits(b),
                None => Wingspan::Text(text),
            },
        }
    }
}

/// The optional text `o`, copied.
pub fn copy_text(o: &Option<String>) -> (r: Option<String>)
    ensures
        r == *o,
{
    match o {
        Some(s) => Some(s.clone()),
        None => None,
    }
}

impl Clone for Wingspan {
    fn clone(&self) -> (r: Self)
        ensures
            r == *self,
    {
        match self {
            Wingspan::Integer(n) => Wingspan::Integer(*n),
            Wingspan::FloatBits(b) => Wingspan::FloatBits(*b),
            Wingspan::Text(s) => Wingspan::Text(s.clone()),
        }
    }
}

impl Clone for BirdMaster {
    fn clone(&self) -> (r: Self)
        ensures
            r == *self,
    {
        BirdMaster {
            id: self.id,
            scientific_name: self.scientific_name.clone(),
            common_name: self.common_name.clone(),
            flavor_text: self.flavor_text.clone(),
            set: self.set.clone(),
            color: copy_text(&self.color),
            nest_type: self.nest_type.clone(),
            power_text: copy_text(&self.power_text),
            power_is_predator: self.power_is_predator,
            power_is_flocking: self.power_is_flocking,
            power_is_bonus_card_related: self.power_is_bonus_card_related,
            victory_points: self.victory_points,
            egg_limit: self.egg_limit,
            wingspan: self.wingspan.clone(),
            can_live_forest: self.can_live_forest,
            can_live_grassland: self.can_live_grassland,
            can_live_wetland: self.can_live_wetland,
            food_invertebrate: self.food_invertebrate,
            food_seed: self.food_seed,
            food_fish: self.food_fish,
            food_fruit: self.food_fruit,
            food_rodent: self.food_rodent,
            food_nectar: self.food_nectar,
            food_wild: self.food_wild,
            food_cost_is_either: self.food_cost_is_either,
            food_cost_has_note: self.food_cost_has_note,
            lives_in_north_america: self.lives_in_north_america,
            lives_in_central_america: self.lives_in_central_america,
            lives_in_south_america: self.lives_in_south_america,
            lives_in_europe: self.lives_in_europe,
            lives_in_asia: self.lives_in_asia,
            lives_in_africa: self.lives_in_africa,
            lives_in_oceania: self.lives_in_oceania,
        }
    }
}

/// The first overlay of `locale` among `entries`, if there is one.
pub open spec fn overlay_of(entries: Seq<LocaleEntry>, locale: Locale) -> Option<BirdI18n>
    decreases entries.len(),
{
    if entries.len() == 0 {
        None
    } else if entries[0].locale == locale {
        Some(entries[0].overlay)
    } else {
        overlay_of(entries.skip(1), locale)
    }
}

/// Whether no two of the overlays are of one locale.
pub open spec fn locales_distinct(entries: Seq<LocaleEntry>) -> bool {
    forall|i: int, j: int|
        0 <= i < j < entries.len() ==> (#[trigger] entries[i]).locale != (#[trigger] entries[j]).locale
}

/// Reading a list of overlays with one more at its end: the added overlay is
/// read only for its own locale, and only where the list had none of it.
pub proof fn overlay_of_push(entries: Seq<LocaleEntry>, last: LocaleEntry, locale: Locale)
    ensures
        overlay_of(entries.push(last), locale) == match overlay_of(entries, locale) {
            Some(e) => Some(e),
            None => if last.locale == locale {
                Some(last.overlay)
            } else {
                None
            },
        },
    decreases entries.len(),
{
    let longer = entries.push(last);
    if entries.len() == 0 {
        assert(longer.skip(1).len() == 0);
    } else {
        assert(longer[0] == entries[0]);
        assert(longer.skip(1) =~= entries.skip(1).push(last));
        if entries[0].locale != locale {
            overlay_of_push(entries.skip(1), last, locale);
        }
    }
}

/// The overlay's text where it has one, else the master's.
pub open spec fn prefer(overlay: Option<String>, master: String) -> Seq<char> {
    match overlay {
        Some(s) => s@,
        None => master@,
    }
}

/// The overlay's text where it has one, else the master's, else nothing.
pub open spec fn prefer_or_empty(overlay: Option<String>, master: Option<String>) -> Seq<char> {
    match overlay {
        Some(s) => s@,
        None => match master {
            Some(m) => m@,
            None => Seq::empty(),
        },
    }
}

/// The overlay that `produce` reads for a requested locale: none where no
/// locale was asked for, or where the record has no overlay of it.
pub open spec fn chosen_overlay(bird: Bird, locale: Option<Locale>) -> Option<BirdI18n> {
    match locale {
        Some(l) => overlay_of(bird.i8n@, l),
        None => None,
    }
}

/// An overlay with no field set: what a missing overlay amounts to.
pub open spec fn blank(o: Option<BirdI18n>) -> BirdI18n {
    match o {
        Some(e) => e,
        None => BirdI18n { scientific_name: None, common_name: None, power_text: None, flavor_text: None },
    }
}

/// Whether `view` is the record `bird` resolved for `locale`: the master
/// record as it is, and each text taken from the overlay that is read for
/// the locale, from the master, or left empty, in that order.
pub open spec fn is_view_of(view: BirdResult, bird: Bird, locale: Option<Locale>) -> bool {
    let overlay = blank(chosen_overlay(bird, locale));
    &&& view.info == bird.master
    &&& view.scientific_name@ == prefer(overlay.scientific_name, bird.master.scientific_name)
    &&& view.common_name@ == prefer(overlay.common_name, bird.master.common_name)
    &&& view.flavor_text@ == prefer(overlay.flavor_text, bird.master.flavor_text)
    &&& view.power_text@ == prefer_or_empty(overlay.power_text, bird.master.power_text)
}

impl Clone for BirdI18n {
    fn clone(&self) -> (r: Self)
        ensures
            r == *self,
    {
        BirdI18n {
            scientific_name: copy_text(&self.scientific_name),
            common_name: copy_text(&self.common_name),
            power_text: copy_text(&self.power_text),
            flavor_text: copy_text(&self.flavor_text),
        }
    }
}

/// The two-letter code of a locale.
pub open spec fn code_of(locale: Locale) -> Seq<char> {
    match locale {
        Locale::De => "de"@,
        Locale::Dk => "dk"@,
        Locale::Es => "es"@,
        Locale::Fr => "fr"@,
        Locale::Jp => "jp"@,
        Locale::Lt => "lt"@,
        Locale::Nl => "nl"@,
        Locale::Pl => "pl"@,
        Locale::Pt => "pt"@,
        Locale::Tr => "tr"@,
        Locale::Uk => "uk"@,
    }
}

/// The locale that a code names, if it names one.
pub open spec fn locale_of(code: Seq<char>) -> Option<Locale> {
    if exists|l: Locale| code_of(l) == code {
        Some(choose|l: Locale| code_of(l) == code)
    } else {
        None
    }
}

/// The codes are two letters each.
pub proof fn codes_are_spelled(locale: Locale)
    ensures
        code_of(locale).len() == 2,
        code_of(Locale::De) == seq!['d', 'e'],
        code_of(Locale::Dk) == seq!['d', 'k'],
        code_of(Locale::Es) == seq!['e', 's'],
        code_of(Locale::Fr) == seq!['f', 'r'],
        code_of(Locale::Jp) == seq!['j', 'p'],
        code_of(Locale::Lt) == seq!['l', 't'],
        code_of(Locale::Nl) == seq!['n', 'l'],
        code_of(Locale::Pl) == seq!['p', 'l'],
        code_of(Locale::Pt) == seq!['p', 't'],
        code_of(Locale::Tr) == seq!['t', 'r'],
        code_of(Locale::Uk) == seq!['u', 'k'],
{
    reveal_strlit("de");
    reveal_strlit("dk");
    reveal_strlit("es");
    reveal_strlit("fr");
    reveal_strlit("jp");
    reveal_strlit("lt");
    reveal_strlit("nl");
    reveal_strlit("pl");
    reveal_strlit("pt");
    reveal_strlit("tr");
    reveal_strlit("uk");
    assert(code_of(Locale::De) =~= seq!['d', 'e']);
    assert(code_of(Locale::Dk) =~= seq!['d', 'k']);
    assert(code_of(Locale::Es) =~= seq!['e', 's']);
    assert(code_of(Locale::Fr) =~= seq!['f', 'r']);
    assert(code_of(Locale::Jp) =~= seq!['j', 'p']);
    assert(code_of(Locale::Lt) =~= seq!['l', 't']);
    assert(code_of(Locale::Nl) =~= seq!['n', 'l']);
    assert(code_of(Locale::Pl) =~= seq!['p', 'l']);
    assert(code_of(Locale::Pt) =~= seq!['p', 't']);
    assert(code_of(Locale::Tr) =~= seq!['t', 'r']);
    assert(code_of(Locale::Uk) =~= seq!['u', 'k']);
}

/// No two locales share a code, so a locale's code names that locale.
pub proof fn code_names_its_locale(locale: Locale)
    ensures
        locale_of(code_of(locale)) == Some(locale),
{
    codes_are_spelled(locale);
    let found = choose|l: Locale| code_of(l) == code_of(locale);
    codes_are_spelled(found);
    assert(code_of(found)[0] == code_of(locale)[0]);
    assert(code_of(found)[1] == code_of(locale)[1]);
}

impl Locale {
    /// Every locale, in the order of their codes.
    pub fn all() -> (r: Vec<Locale>)
        ensures
            r@ == seq![
                Locale::De,
                Locale::Dk,
                Locale::Es,
                Locale::Fr,
                Locale::Jp,
                Locale::Lt,
                Locale::Nl,
                Locale::Pl,
                Locale::Pt,
                Locale::Tr,
                Locale::Uk,
            ],
    {
        vec![
            Locale::De,
            Locale::Dk,
            Locale::Es,
            Locale::Fr,
            Locale::Jp,
            Locale::Lt,
            Locale::Nl,
            Locale::Pl,
            Locale::Pt,
            Locale::Tr,
            Locale::Uk,
        ]
    }

    /// The two-letter code of the locale.
    pub fn code(&self) -> (r: &'static str)
        ensures
            r@ == code_of(*self),
    {
        match self {
            Locale::De => "de",
            Locale::Dk => "dk",
            Locale::Es => "es",
            Locale::Fr => "fr",
            Locale::Jp => "jp",
            Locale::Lt => "lt",
            Locale::Nl => "nl",
            Locale::Pl => "pl",
            Locale::Pt => "pt",
            Locale::Tr => "tr",
            Locale::Uk => "uk",
        }
    }

    /// Reads a locale code. A text that is no locale's code names no locale;
    /// that is no error.
    pub fn try_from_code(code: &str) -> (r: Option<Locale>)
        ensures
            r == locale_of(code@),
    {
        proof {
            codes_are_spelled(Locale::De);
            assert forall|l: Locale| code_of(l).len() == 2 by {
                codes_are_spelled(l);
            }
        }
        if code.unicode_len() != 2 {
            return None;
        }
        let a = code.get_char(0);
        let b = code.get_char(1);
        let found = if a == 'd' && b == 'e' {
            Some(Locale::De)
        } else if a == 'd' && b == 'k' {
            Some(Locale::Dk)
        } else if a == 'e' && b == 's' {
            Some(Locale::Es)
        } else if a == 'f' && b == 'r' {
            Some(Locale::Fr)
        } else if a == 'j' && b == 'p' {
            Some(Locale::Jp)
        } else if a == 'l' && b == 't' {
            Some(Locale::Lt)
        } else if a == 'n' && b == 'l' {
            Some(Locale::Nl)
        } else if a == 'p' && b == 'l' {
            Some(Locale::Pl)
        } else if a == 'p' && b == 't' {
            Some(Locale::Pt)
        } else if a == 't' && b == 'r' {
            Some(Locale::Tr)
        } else if a == 'u' && b == 'k' {
            Some(Locale::Uk)
        } else {
            None
        };
        proof {
            match found {
                Some(l) => {
                    assert(code_of(l) =~= code@);
                    code_names_its_locale(l);
                },
                None => {
                    assert forall|l: Locale| code_of(l) != code@ by {
                        codes_are_spelled(l);
                        if code_of(l) == code@ {
                            assert(code_of(l)[0] == a);
                            assert(code_of(l)[1] == b);
                        }
                    }
                },
            }
        }
        found
    }
}

impl Bird {
    /// A record is well formed when it has at most one overlay of each
    /// locale.
    pub open spec fn wf(&self) -> bool {
        locales_distinct(self.i8n@)
    }

    /// The overlay of `locale`, if the record has one.
    pub fn overlay(&self, locale: Locale) -> (r: Option<&BirdI18n>)
        ensures
            match r {
                Some(e) => overlay_of(self.i8n@, locale) == Some(*e),
                None => overlay_of(self.i8n@, locale) is None,
            },
    {
        let mut i: usize = 0;
        assert(self.i8n@.skip(0) =~= self.i8n@);
        while i < self.i8n.len()
            invariant
                i <= self.i8n.len(),
                overlay_of(self.i8n@, locale) == overlay_of(self.i8n@.skip(i as int), locale),
            decreases self.i8n.len() - i,
        {
            proof {
                let rest = self.i8n@.skip(i as int);
                assert(rest[0] == self.i8n@[i as int]);
                assert(rest.skip(1) =~= self.i8n@.skip(i + 1));
            }
            if self.i8n[i].locale == locale {
                return Some(&self.i8n[i].overlay);
            }
            i += 1;
        }
        None
    }

    /// Resolves the record for `locale`.
    ///
    /// Names and flavor text come from the overlay of the locale where it has
    /// them and from the master record otherwise; the power text falls back
    /// from overlay to master to the empty text. Without a locale, or without
    /// an overlay of it, every field is the master's. The master record is
    /// carried along unchanged.
    pub fn produce(&self, locale: Option<Locale>) -> (r: BirdResult)
        ensures
            is_view_of(r, *self, locale),
    {
        let locale_entry = match locale {
            Some(l) => self.overlay(l),
            None => None,
        };
        if let Some(entry) = locale_entry {
            BirdResult {
                scientific_name: text_or(&entry.scientific_name, &self.master.scientific_name),
                common_name: text_or(&entry.common_name, &self.master.common_name),
                power_text: text_or_empty(&entry.power_text, &self.master.power_text),
                flavor_text: text_or(&entry.flavor_text, &self.master.flavor_text),
                info: self.master.clone(),
            }
        } else {
            BirdResult {
                scientific_name: self.master.scientific_name.clone(),
                common_name: self.master.common_name.clone(),
                power_text: text_or_empty(&None, &self.master.power_text),
                flavor_text: self.master.flavor_text.clone(),
                info: self.master.clone(),
            }
        }
    }
}

/// A copy of the overlay's text where it has one, else of the master's.
pub fn text_or(overlay: &Option<String>, master: &String) -> (r: String)
    ensures
        r@ == prefer(*overlay, *master),
{
    match overlay {
        Some(s) => s.clone(),
        None => master.clone(),
    }
}

/// A copy of the overlay's text where it has one, else of the master's, else
/// the empty text.
pub fn text_or_empty(overlay: &Option<String>, master: &Option<String>) -> (r: String)
    ensures
        r@ == prefer_or_empty(*overlay, *master),
{
    match overlay {
        Some(s) => s.clone(),
        None => match master {
            Some(m) => m.clone(),
            None => String::new(),
        },
    }
}

/// A locale without an overlay resolves as no locale at all does: whatever
/// is a view of the record for the one is a view of it for the other.
pub proof fn locale_miss_is_master_only(view: BirdResult, bird: Bird, locale: Locale)
    requires
        overlay_of(bird.i8n@, locale) is None,
    ensures
        is_view_of(view, bird, Some(locale)) <==> is_view_of(view, bird, None),
{
}

/// The view of a record for a locale is one text per field: two views of the
/// same record for the same locale read alike.
pub proof fn view_is_determined(a: BirdResult, b: BirdResult, bird: Bird, locale: Option<Locale>)
    requires
        is_view_of(a, bird, locale),
        is_view_of(b, bird, locale),
    ensures
        a.info == b.info,
        a.scientific_name@ == b.scientific_name@,
        a.common_name@ == b.common_name@,
        a.flavor_text@ == b.flavor_text@,
        a.power_text@ == b.power_text@,
{
}

} // verus!
