//! Building the catalog: the master records, each joined with the overlays
//! that the locale files hold under its id.
use crate::bird::{locales_distinct, overlay_of, overlay_of_push, Bird, BirdI18n, BirdMaster, Locale, LocaleEntry};
use crate::rotation::{selection, selection_is_deterministic};
use vstd::prelude::*;

verus! {

/// The overlays of one locale, each under the decimal id of its record.
///
/// `birds` is searched front to back: the first entry under a key is the
/// overlay of that key.
#[derive(Debug, PartialEq, Eq)]
pub struct I18nFile {
    pub birds: Vec<(String, BirdI18n)>,
}

/// The character of the decimal digit `d`.
pub open spec fn digit(d: int) -> char
    recommends
        0 <= d < 10,
{
    ((48 + d) as u8) as char
}

/// The decimal digits of `n`, without leading zeros.
pub open spec fn digits(n: nat) -> Seq<char>
    decreases n,
{
    if n < 10 {
        seq![digit(n as int)]
    } else {
        digits(n / 10).push(digit((n % 10) as int))
    }
}

/// The decimal text of `id`, with a minus sign before a negative one.
pub open spec fn decimal(id: int) -> Seq<char> {
    if id < 0 {
        seq!['-'] + digits((-id) as nat)
    } else {
        digits(id as nat)
    }
}

/// `i128`'s `to_string`.
///
/// Trusted: the text is the number in decimal digits, without leading zeros
/// and with a minus sign before a negative number.
#[verifier::external_body]
pub(crate) fn decimal_text(n: i128) -> (r: String)
    ensures
        r@ == decimal(n as int),
{
    n.to_string()
}

/// The key under which the overlays of the record `id` are filed: its
/// decimal text.
pub fn id_key(id: i32) -> (r: String)
    ensures
        r@ == decimal(id as int),
{
    decimal_text(id as i128)
}

/// The first overlay under `key` among `entries`, if there is one.
pub open spec fn entry_of(entries: Seq<(String, BirdI18n)>, key: Seq<char>) -> Option<BirdI18n>
    decreases entries.len(),
{
    if entries.len() == 0 {
        None
    } else if entries[0].0@ == key {
        Some(entries[0].1)
    } else {
        entry_of(entries.skip(1), key)
    }
}

/// The overlays under `key` in the files, one for each file that has one, in
/// the order of the files.
pub open spec fn gathered(files: Seq<(Locale, I18nFile)>, key: Seq<char>) -> Seq<LocaleEntry>
    decreases files.len(),
{
    if files.len() == 0 {
        Seq::empty()
    } else {
        let before = gathered(files.drop_last(), key);
        match entry_of(files.last().1.birds@, key) {
            Some(e) => before.push(LocaleEntry { locale: files.last().0, overlay: e }),
            None => before,
        }
    }
}

/// Whether no two of the files are of one locale.
pub open spec fn files_distinct(files: Seq<(Locale, I18nFile)>) -> bool {
    forall|a: int, b: int| 0 <= a < b < files.len() ==> (#[trigger] files[a]).0 != (#[trigger] files[b]).0
}

/// Every gathered overlay carries the locale of one of the files, and where
/// no two files are of one locale, no two gathered overlays are.
pub proof fn gathered_is_well_formed(files: Seq<(Locale, I18nFile)>, key: Seq<char>)
    ensures
        forall|k: int|
            0 <= k < gathered(files, key).len() ==> exists|i: int|
                0 <= i < files.len() && (#[trigger] files[i]).0 == (#[trigger] gathered(files, key)[k]).locale,
        files_distinct(files) ==> locales_distinct(gathered(files, key)),
    decreases files.len(),
{
    if files.len() > 0 {
        let head = files.drop_last();
        let before = gathered(head, key);
        let all = gathered(files, key);
        gathered_is_well_formed(head, key);
        assert forall|k: int| 0 <= k < all.len() implies exists|i: int|
            0 <= i < files.len() && (#[trigger] files[i]).0 == (#[trigger] all[k]).locale by {
            if k < before.len() {
                assert(all[k] == before[k]);
                let i = choose|i: int| 0 <= i < head.len() && (#[trigger] head[i]).0 == before[k].locale;
                assert(files[i] == head[i]);
            } else {
                assert(files[files.len() - 1].0 == all[k].locale);
            }
        }
        if files_distinct(files) {
            assert(files_distinct(head)) by {
                assert forall|a: int, b: int| 0 <= a < b < head.len() implies (#[trigger] head[a]).0 != (
                #[trigger] head[b]).0 by {
                    assert(head[a] == files[a]);
                    assert(head[b] == files[b]);
                }
            }
            assert forall|i: int, j: int| 0 <= i < j < all.len() implies (#[trigger] all[i]).locale != (
            #[trigger] all[j]).locale by {
                assert(all[i] == before[i]);
                if j < before.len() {
                    assert(all[j] == before[j]);
                } else {
                    let a = choose|a: int| 0 <= a < head.len() && (#[trigger] head[a]).0 == before[i].locale;
                    assert(files[a] == head[a]);
                    assert(files[a].0 != files[files.len() - 1].0);
                }
            }
        }
    }
}

/// The overlay under `key` in the first file of `locale` that has one.
pub open spec fn filed(files: Seq<(Locale, I18nFile)>, locale: Locale, key: Seq<char>) -> Option<
    BirdI18n,
>
    decreases files.len(),
{
    if files.len() == 0 {
        None
    } else {
        match filed(files.drop_last(), locale, key) {
            Some(e) => Some(e),
            None => if files.last().0 == locale {
                entry_of(files.last().1.birds@, key)
            } else {
                None
            },
        }
    }
}

/// Among the overlays gathered under a key, the one read for a locale is the
/// one that the first file of that locale with such an overlay holds.
pub proof fn gathered_reads_as_filed(files: Seq<(Locale, I18nFile)>, key: Seq<char>, locale: Locale)
    ensures
        overlay_of(gathered(files, key), locale) == filed(files, locale, key),
    decreases files.len(),
{
    if files.len() > 0 {
        let before = gathered(files.drop_last(), key);
        gathered_reads_as_filed(files.drop_last(), key, locale);
        match entry_of(files.last().1.birds@, key) {
            Some(e) => {
                overlay_of_push(before, LocaleEntry { locale: files.last().0, overlay: e }, locale);
            },
            None => {},
        }
    }
}

/// Where no two files are of one locale, the overlay filed for a file's
/// locale is the one in that file, and a locale without a file has none.
pub proof fn filed_is_in_the_locales_file(files: Seq<(Locale, I18nFile)>, locale: Locale, key: Seq<char>)
    requires
        files_distinct(files),
    ensures
        forall|i: int|
            0 <= i < files.len() && (#[trigger] files[i]).0 == locale ==> filed(files, locale, key)
                == entry_of(files[i].1.birds@, key),
        (forall|i: int| 0 <= i < files.len() ==> (#[trigger] files[i]).0 != locale) ==> filed(
            files,
            locale,
            key,
        ) is None,
    decreases files.len(),
{
    if files.len() > 0 {
        let head = files.drop_last();
        assert forall|a: int, b: int| 0 <= a < b < head.len() implies (#[trigger] head[a]).0 != (
        #[trigger] head[b]).0 by {
            assert(head[a] == files[a]);
            assert(head[b] == files[b]);
        }
        filed_is_in_the_locales_file(head, locale, key);
        assert forall|i: int| 0 <= i < files.len() && (#[trigger] files[i]).0 == locale implies filed(
            files,
            locale,
            key,
        ) == entry_of(files[i].1.birds@, key) by {
            if i < head.len() {
                assert(head[i] == files[i]);
                assert(files.last() == files[files.len() - 1]);
            } else {
                assert forall|j: int| 0 <= j < head.len() implies (#[trigger] head[j]).0 != locale by {
                    assert(head[j] == files[j]);
                }
            }
        }
        if forall|i: int| 0 <= i < files.len() ==> (#[trigger] files[i]).0 != locale {
            assert forall|j: int| 0 <= j < head.len() implies (#[trigger] head[j]).0 != locale by {
                assert(head[j] == files[j]);
            }
            assert(files.last() == files[files.len() - 1]);
        }
    }
}

/// What a catalog's record reads for a locale is the overlay filed for that
/// locale under the record's id; a record whose id an earlier master record
/// had reads none.
pub proof fn catalog_reads_the_filed_overlay(
    birds: Seq<Bird>,
    master: Seq<BirdMaster>,
    files: Seq<(Locale, I18nFile)>,
    k: int,
    locale: Locale,
)
    requires
        is_catalog_of(birds, master, files),
        0 <= k < birds.len(),
    ensures
        overlay_of(birds[k].i8n@, locale) == if seen_before(
            master,
            kept(master, master.len() as int)[k],
        ) {
            None
        } else {
            filed(files, locale, decimal(birds[k].master.id as int))
        },
{
    let m = kept(master, master.len() as int)[k];
    assert(birds[k].i8n@ == overlays_at(master, files, m));
    assert(birds[k].master == master[m]);
    if !seen_before(master, m) {
        gathered_reads_as_filed(files, decimal(master[m].id as int), locale);
    }
}

/// The catalog of given data is one: two catalogs of the same master data
/// and locale files hold the same records with the same overlays in the same
/// order, and so give the same selection in every window, under every filter.
pub proof fn two_loads_agree(
    first: Seq<Bird>,
    second: Seq<Bird>,
    master: Seq<BirdMaster>,
    files: Seq<(Locale, I18nFile)>,
    window: u64,
    allow: Seq<Seq<char>>,
)
    requires
        is_catalog_of(first, master, files),
        is_catalog_of(second, master, files),
    ensures
        first.len() == second.len(),
        forall|k: int|
            0 <= k < first.len() ==> (#[trigger] first[k]).master == second[k].master && first[k].i8n@
                == second[k].i8n@,
        selection(window, first, allow) == selection(window, second, allow),
{
    selection_is_deterministic(window, first, second, allow);
}

/// Whether a record before position `m` of the master data has the id of
/// the record at `m`.
pub open spec fn seen_before(master: Seq<BirdMaster>, m: int) -> bool {
    exists|j: int| 0 <= j < m && (#[trigger] master[j]).id == master[m].id
}

/// Whether a record after position `m` of the master data has the id of the
/// record at `m`.
pub open spec fn seen_after(master: Seq<BirdMaster>, m: int) -> bool {
    exists|j: int| m < j < master.len() && (#[trigger] master[j]).id == master[m].id
}

/// The positions among the first `n` master records that make it into the
/// catalog, in rising order: of the records that share an id the last one
/// stays.
pub open spec fn kept(master: Seq<BirdMaster>, n: int) -> Seq<int>
    decreases n,
{
    if n <= 0 {
        Seq::empty()
    } else if seen_after(master, n - 1) {
        kept(master, n - 1)
    } else {
        kept(master, n - 1).push(n - 1)
    }
}

/// The overlays that the record at position `m` receives: those filed under
/// its id, unless an earlier record of the same id has taken them, since an
/// overlay is handed out once.
pub open spec fn overlays_at(master: Seq<BirdMaster>, files: Seq<(Locale, I18nFile)>, m: int) -> Seq<
    LocaleEntry,
> {
    if seen_before(master, m) {
        Seq::empty()
    } else {
        gathered(files, decimal(master[m].id as int))
    }
}

/// Whether `birds` holds, for each of the first `n` master records that is
/// kept, that record with the overlays it receives, in the order of the
/// master data.
pub open spec fn is_catalog_upto(
    birds: Seq<Bird>,
    master: Seq<BirdMaster>,
    files: Seq<(Locale, I18nFile)>,
    n: int,
) -> bool {
    &&& birds.len() == kept(master, n).len()
    &&& forall|k: int|
        0 <= k < birds.len() ==> {
            &&& (#[trigger] birds[k]).master == master[kept(master, n)[k]]
            &&& birds[k].i8n@ == overlays_at(master, files, kept(master, n)[k])
        }
}

/// Whether `birds` is the catalog of the master data and the locale files.
pub open spec fn is_catalog_of(
    birds: Seq<Bird>,
    master: Seq<BirdMaster>,
    files: Seq<(Locale, I18nFile)>,
) -> bool {
    is_catalog_upto(birds, master, files, master.len() as int)
}

/// The kept positions lie within the first `n`, rise strictly, and none has
/// its id again further on in the master data.
pub proof fn kept_positions(master: Seq<BirdMaster>, n: int)
    requires
        0 <= n <= master.len(),
    ensures
        kept(master, n).len() <= n,
        forall|k: int|
            0 <= k < kept(master, n).len() ==> 0 <= (#[trigger] kept(master, n)[k]) < n && !seen_after(
                master,
                kept(master, n)[k],
            ),
        forall|j: int, k: int|
            0 <= j < k < kept(master, n).len() ==> kept(master, n)[j] < kept(master, n)[k],
    decreases n,
{
    if n > 0 {
        kept_positions(master, n - 1);
    }
}

/// No id occurs twice in a catalog, and every overlay of a catalog's record
/// is filed under that record's id.
pub proof fn catalog_ids_are_distinct(
    birds: Seq<Bird>,
    master: Seq<BirdMaster>,
    files: Seq<(Locale, I18nFile)>,
)
    requires
        is_catalog_of(birds, master, files),
    ensures
        forall|j: int, k: int|
            0 <= j < k < birds.len() ==> (#[trigger] birds[j]).master.id != (#[trigger] birds[k]).master.id,
        forall|k: int|
            0 <= k < birds.len() ==> (#[trigger] birds[k]).i8n@ == Seq::<LocaleEntry>::empty()
                || birds[k].i8n@ == gathered(files, decimal(birds[k].master.id as int)),
{
    let n = master.len() as int;
    kept_positions(master, n);
    assert forall|j: int, k: int| 0 <= j < k < birds.len() implies (#[trigger] birds[j]).master.id != (
    #[trigger] birds[k]).master.id by {
        let a = kept(master, n)[j];
        let b = kept(master, n)[k];
        assert(!seen_after(master, a));
        assert(a < b);
        if master[a].id == master[b].id {
            assert(master[b].id == master[a].id);
        }
    }
}

impl I18nFile {
    /// The overlay filed under `key`, if there is one.
    pub fn get(&self, key: &String) -> (r: Option<&BirdI18n>)
        ensures
            match r {
                Some(e) => entry_of(self.birds@, key@) == Some(*e),
                None => entry_of(self.birds@, key@) is None,
            },
    {
        let mut i: usize = 0;
        assert(self.birds@.skip(0) =~= self.birds@);
        while i < self.birds.len()
            invariant
                i <= self.birds.len(),
                entry_of(self.birds@, key@) == entry_of(self.birds@.skip(i as int), key@),
            decreases self.birds.len() - i,
        {
            proof {
                let rest = self.birds@.skip(i as int);
                assert(rest[0] == self.birds@[i as int]);
                assert(rest.skip(1) =~= self.birds@.skip(i + 1));
            }
            if self.birds[i].0 == *key {
                return Some(&self.birds[i].1);
            }
            i += 1;
        }
        None
    }
}

/// Copies of the overlays under `key` in the files, one for each file that
/// has one, in the order of the files.
pub fn gather(files: &Vec<(Locale, I18nFile)>, key: &String) -> (r: Vec<LocaleEntry>)
    ensures
        r@ == gathered(files@, key@),
{
    let mut out: Vec<LocaleEntry> = Vec::new();
    let mut i: usize = 0;
    while i < files.len()
        invariant
            i <= files.len(),
            out@ == gathered(files@.take(i as int), key@),
        decreases files.len() - i,
    {
        proof {
            let next = files@.take(i + 1);
            assert(next.drop_last() =~= files@.take(i as int));
            assert(next.last() == files@[i as int]);
        }
        match files[i].1.get(key) {
            Some(e) => {
                out.push(LocaleEntry { locale: files[i].0, overlay: e.clone() });
            },
            None => {},
        }
        i += 1;
    }
    assert(files@.take(files.len() as int) =~= files@);
    out
}

/// Whether a master record at a position from `from` up to, not including,
/// `to` has the id `id`.
pub fn id_occurs(master: &Vec<BirdMaster>, from: usize, to: usize, id: i32) -> (r: bool)
    requires
        from <= to <= master.len(),
    ensures
        r == exists|j: int| from <= j < to && (#[trigger] master[j]).id == id,
{
    let mut i: usize = from;
    while i < to
        invariant
            from <= i <= to,
            to <= master.len(),
            forall|j: int| from <= j < i ==> (#[trigger] master[j]).id != id,
        decreases to - i,
    {
        if master[i].id == id {
            return true;
        }
        i += 1;
    }
    false
}

/// The position of the first record with the id `id`, or the number of
/// records where there is none.
pub open spec fn position_of_id(birds: Seq<Bird>, id: i32) -> int
    decreases birds.len(),
{
    if birds.len() == 0 {
        0
    } else if birds[0].master.id == id {
        0
    } else {
        1 + position_of_id(birds.skip(1), id)
    }
}

/// The record with the id `id`: the first one, should there be several.
pub fn bird_by_id(birds: &Vec<Bird>, id: i32) -> (r: Option<&Bird>)
    ensures
        match r {
            Some(b) => position_of_id(birds@, id) < birds.len() && *b == birds[position_of_id(
                birds@,
                id,
            )] && b.master.id == id,
            None => position_of_id(birds@, id) == birds.len() && forall|j: int|
                0 <= j < birds.len() ==> (#[trigger] birds[j]).master.id != id,
        },
{
    let mut i: usize = 0;
    assert(birds@.skip(0) =~= birds@);
    while i < birds.len()
        invariant
            i <= birds.len(),
            position_of_id(birds@, id) == i + position_of_id(birds@.skip(i as int), id),
            forall|j: int| 0 <= j < i ==> (#[trigger] birds[j]).master.id != id,
        decreases birds.len() - i,
    {
        proof {
            let rest = birds@.skip(i as int);
            assert(rest[0] == birds@[i as int]);
            assert(rest.skip(1) =~= birds@.skip(i + 1));
        }
        if birds[i].master.id == id {
            return Some(&birds[i]);
        }
        i += 1;
    }
    None
}

/// Builds the catalog from the master data and the locale files that could
/// be read.
///
/// Every master record enters with the overlays filed under its decimal id,
/// one for each file that has one; an overlay under an id that no master
/// record has is dropped. Where several master records share an id, the
/// first of them takes the overlays and the last of them is the one that
/// stays.
pub fn load_birds(master: &Vec<BirdMaster>, files: &Vec<(Locale, I18nFile)>) -> (r: Vec<Bird>)
    ensures
        is_catalog_of(r@, master@, files@),
        files_distinct(files@) ==> forall|k: int| 0 <= k < r.len() ==> (#[trigger] r[k]).wf(),
{
    let mut out: Vec<Bird> = Vec::new();
    let mut m: usize = 0;
    while m < master.len()
        invariant
            m <= master.len(),
            is_catalog_upto(out@, master@, files@, m as int),
            files_distinct(files@) ==> forall|k: int| 0 <= k < out.len() ==> (#[trigger] out[k]).wf(),
        decreases master.len() - m,
    {
        let id = master[m].id;
        let ghost before = out@;
        if !id_occurs(master, m + 1, master.len(), id) {
            let i8n = if id_occurs(master, 0, m, id) {
                Vec::new()
            } else {
                gather(files, &id_key(id))
            };
            proof {
                gathered_is_well_formed(files@, decimal(id as int));
            }
            out.push(Bird { master: master[m].clone(), i8n });
            proof {
                assert(!seen_after(master@, m as int));
                assert(kept(master@, m + 1) == kept(master@, m as int).push(m as int));
                assert forall|k: int| 0 <= k < out@.len() implies {
                    &&& (#[trigger] out@[k]).master == master@[kept(master@, m + 1)[k]]
                    &&& out@[k].i8n@ == overlays_at(master@, files@, kept(master@, m + 1)[k])
                } by {
                    if k < before.len() {
                        assert(out@[k] == before[k]);
                    }
                }
            }
        } else {
            proof {
                assert(seen_after(master@, m as int));
            }
        }
        m += 1;
    }
    out
}

} // verus!
