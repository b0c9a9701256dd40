use vstd::prelude::*;

use crate::models::TabCollection;

verus! {

/// What to collect next: the colours of the bins collected on the nearest
/// date, when they were computed (seconds since the Unix epoch), and that
/// date as shown to the user.
#[derive(Clone, Debug, PartialEq, Eq)]
pub struct BinColor {
    pub colors: Vec<String>,
    pub update_date: Option<i64>,
    pub collect_date: String,
}

/// A result in mathematical form: strings as character sequences.
pub ghost struct BinColorView {
    pub colors: Seq<Seq<char>>,
    pub update_date: Option<i64>,
    pub collect_date: Seq<char>,
}

/// Each string as its character sequence.
pub open spec fn strings_view(v: Seq<String>) -> Seq<Seq<char>> {
    v.map_values(|c: String| c@)
}

impl View for BinColor {
    type V = BinColorView;

    open spec fn view(&self) -> BinColorView {
        BinColorView {
            colors: strings_view(self.colors@),
            update_date: self.update_date,
            collect_date: self.collect_date@,
        }
    }
}

impl BinColor {
    /// An empty result: no colours, never computed, no date.
    pub fn new() -> (r: BinColor)
        ensures
            r@.colors.len() == 0,
            r@.update_date is None,
            r@.collect_date.len() == 0,
    {
        BinColor { colors: Vec::new(), update_date: None, collect_date: String::new() }
    }

    /// A result is valid when it names at least one colour.
    pub open spec fn spec_is_valid(&self) -> bool {
        self.colors@.len() > 0
    }

    pub fn is_valid(&self) -> (r: bool)
        ensures
            r == self.spec_is_valid(),
    {
        self.colors.len() > 0
    }

    /// A copy with the same view.
    pub fn duplicate(&self) -> (r: BinColor)
        ensures
            r@ == self@,
    {
        let mut colors: Vec<String> = Vec::new();
        let mut i: usize = 0;
        while i < self.colors.len()
            invariant
                i <= self.colors@.len(),
                strings_view(colors@) == strings_view(self.colors@).take(i as int),
            decreases self.colors@.len() - i,
        {
            let ghost before = colors@;
            let c = self.colors[i].clone();
            colors.push(c);
            assert(strings_view(colors@) =~= strings_view(before).push(c@));
            i = i + 1;
            assert(strings_view(colors@) =~= strings_view(self.colors@).take(i as int));
        }
        assert(strings_view(self.colors@).take(i as int) =~= strings_view(self.colors@));
        BinColor {
            colors,
            update_date: self.update_date,
            collect_date: self.collect_date.clone(),
        }
    }
}

/// The colours of the records dated `date`, in the order of the records,
/// duplicates kept.
pub open spec fn colors_on(records: Seq<TabCollection>, date: Seq<char>) -> Seq<Seq<char>>
    decreases records.len(),
{
    if records.len() == 0 {
        Seq::empty()
    } else {
        let rest = colors_on(records.drop_last(), date);
        if records.last().date@ == date {
            rest.push(records.last().colour@)
        } else {
            rest
        }
    }
}

/// What extraction computes at time `now` from a non-empty record list: the
/// first record's date is the next collection date.
pub open spec fn extracted(records: Seq<TabCollection>, now: i64) -> BinColorView {
    BinColorView {
        colors: colors_on(records, records[0].date@),
        update_date: Some(now),
        collect_date: date_segment(records[0].date@),
    }
}

/// The two characters that separate the parts of a collection date.
pub open spec fn is_separator_at(s: Seq<char>, i: int) -> bool {
    0 <= i && i + 1 < s.len() && s[i] == ',' && s[i + 1] == ' '
}

/// `s` holds the separator `", "` exactly twice, at `i` and at `j`.
pub open spec fn separated_at(s: Seq<char>, i: int, j: int) -> bool {
    &&& i + 2 <= j
    &&& is_separator_at(s, i)
    &&& is_separator_at(s, j)
    &&& forall|k: int| #[trigger] is_separator_at(s, k) ==> k == i || k == j
}

/// The middle part of a `"<weekday>, <day month year>, <extra>"` string, or
/// the empty sequence when the string does not split into exactly three parts.
pub open spec fn date_segment(s: Seq<char>) -> Seq<char> {
    if exists|i: int, j: int| separated_at(s, i, j) {
        let (i, j) = choose|i: int, j: int| separated_at(s, i, j);
        s.subrange(i + 2, j)
    } else {
        Seq::empty()
    }
}

proof fn lemma_separators_apart(s: Seq<char>, i: int, j: int)
    requires
        is_separator_at(s, i),
        is_separator_at(s, j),
        i < j,
    ensures
        i + 2 <= j,
{
    if j == i + 1 {
        assert(s[i + 1] == ' ');
        assert(s[j] == ',');
    }
}

proof fn lemma_date_segment_at(s: Seq<char>, i: int, j: int)
    requires
        separated_at(s, i, j),
    ensures
        date_segment(s) == s.subrange(i + 2, j),
{
    let (a, b) = choose|a: int, b: int| separated_at(s, a, b);
    assert(separated_at(s, a, b));
    assert(is_separator_at(s, a));
    assert(is_separator_at(s, b));
}

/// The human-facing collection date: the middle of the three `", "`-separated
/// parts of `date`, or the empty string when it has not exactly three parts.
pub fn collect_date(date: String) -> (r: String)
    ensures
        r@ == date_segment(date@),
{
    let s: &str = date.as_str();
    let n: usize = s.unicode_len();
    let mut count: usize = 0;
    let mut first: usize = 0;
    let mut second: usize = 0;
    let mut k: usize = 0;
    while k < n
        invariant
            s@ == date@,
            n == s@.len(),
            k <= n,
            count <= 2,
            count == 0 ==> forall|m: int| 0 <= m < k ==> !#[trigger] is_separator_at(s@, m),
            count >= 1 ==> first < k && is_separator_at(s@, first as int),
            count == 2 ==> first < second < k && is_separator_at(s@, second as int),
            count == 1 ==> forall|m: int|
                0 <= m < k && #[trigger] is_separator_at(s@, m) ==> m == first,
            count == 2 ==> forall|m: int|
                0 <= m < k && #[trigger] is_separator_at(s@, m) ==> m == first || m == second,
        decreases n - k,
    {
        if k + 1 < n && s.get_char(k) == ',' && s.get_char(k + 1) == ' ' {
            assert(is_separator_at(s@, k as int));
            if count == 2 {
                proof {
                    assert forall|i: int, j: int| !separated_at(s@, i, j) by {
                        if separated_at(s@, i, j) {
                            assert(is_separator_at(s@, first as int));
                            assert(is_separator_at(s@, second as int));
                            assert(is_separator_at(s@, k as int));
                        }
                    }
                }
                return String::new();
            }
            if count == 0 {
                first = k;
            } else {
                second = k;
            }
            count = count + 1;
        }
        k = k + 1;
    }
    proof {
        assert forall|m: int| #[trigger] is_separator_at(s@, m) implies 0 <= m < k by {}
    }
    if count != 2 {
        proof {
            assert forall|i: int, j: int| !separated_at(s@, i, j) by {
                if separated_at(s@, i, j) {
                    assert(is_separator_at(s@, i));
                    assert(is_separator_at(s@, j));
                }
            }
        }
        return String::new();
    }
    proof {
        lemma_separators_apart(s@, first as int, second as int);
        lemma_date_segment_at(s@, first as int, second as int);
    }
    s.substring_char(first + 2, second).to_owned()
}

/// The next collection in `tab_collections`, computed at `now`: absent for
/// an empty list, otherwise the colours of every record that shares the first
/// record's date.
pub fn get_bin_color_at(tab_collections: &Vec<TabCollection>, now: i64) -> (r: Option<BinColor>)
    ensures
        r is Some <==> tab_collections@.len() > 0,
        r matches Some(b) ==> b@ == extracted(tab_collections@, now) && b.spec_is_valid(),
{
    if tab_collections.len() == 0 {
        return None;
    }
    let mut bin_data = BinColor::new();
    bin_data.update_date = Some(now);
    let target_date: String = tab_collections[0].date.clone();
    bin_data.collect_date = collect_date(target_date.clone());
    let ghost records = tab_collections@;
    let mut i: usize = 0;
    while i < tab_collections.len()
        invariant
            records == tab_collections@,
            records.len() > 0,
            i <= records.len(),
            target_date@ == records[0].date@,
            bin_data@.update_date == Some(now),
            bin_data@.collect_date == date_segment(records[0].date@),
            bin_data@.colors == colors_on(records.take(i as int), target_date@),
            i > 0 ==> bin_data@.colors.len() > 0,
        decreases records.len() - i,
    {
        let ghost before = bin_data@.colors;
        assert(records.take(i + 1).drop_last() =~= records.take(i as int));
        if tab_collections[i].date == target_date {
            bin_data.colors.push(tab_collections[i].colour.clone());
            assert(strings_view(bin_data.colors@) =~= before.push(records[i as int].colour@));
        }
        i = i + 1;
    }
    assert(records.take(i as int) =~= records);
    if bin_data.colors.len() == 0 {
        return None;
    }
    Some(bin_data)
}

/// Whether a record is dated `date`.
pub open spec fn dated(date: Seq<char>) -> spec_fn(TabCollection) -> bool {
    |r: TabCollection| r.date@ == date
}

/// The colour of a record.
pub open spec fn colour_of() -> spec_fn(TabCollection) -> Seq<char> {
    |r: TabCollection| r.colour@
}

proof fn lemma_colors_on_is_filter(records: Seq<TabCollection>, date: Seq<char>)
    ensures
        colors_on(records, date) == records.filter(dated(date)).map_values(colour_of()),
    decreases records.len(),
{
    reveal(Seq::filter);
    if records.len() > 0 {
        lemma_colors_on_is_filter(records.drop_last(), date);
        let rest = records.drop_last().filter(dated(date));
        if dated(date)(records.last()) {
            assert(rest.push(records.last()).map_values(colour_of()) =~= rest.map_values(
                colour_of(),
            ).push(records.last().colour@));
        }
    } else {
        assert(records.filter(dated(date)).map_values(colour_of()) =~= Seq::<Seq<char>>::empty());
    }
}

/// The colours extracted are exactly those of the records that share the
/// first record's date, in the order of the records, duplicates kept; there
/// is at least one.
pub proof fn lemma_extracted_colours_are_those_of_the_first_date(
    records: Seq<TabCollection>,
    now: i64,
)
    requires
        records.len() > 0,
    ensures
        extracted(records, now).colors == records.filter(dated(records[0].date@)).map_values(
            colour_of(),
        ),
        extracted(records, now).colors.len() > 0,
{
    lemma_colors_on_is_filter(records, records[0].date@);
    let pred = dated(records[0].date@);
    broadcast use vstd::seq_lib::group_filter_ensures;

    assert(pred(records[0]));
    assert(records.filter(pred).contains(records[0]));
}

/// Extraction from a single record yields that record's colour alone,
/// stamped with the time of extraction.
pub proof fn lemma_single_record_extracts_its_colour(records: Seq<TabCollection>, now: i64)
    requires
        records.len() == 1,
    ensures
        extracted(records, now).colors == seq![records[0].colour@],
        extracted(records, now).update_date == Some(now),
{
    assert(records.drop_last().len() == 0);
    assert(colors_on(records.drop_last(), records[0].date@) == Seq::<Seq<char>>::empty());
    assert(seq![records[0].colour@] =~= Seq::<Seq<char>>::empty().push(records[0].colour@));
}

/// Relies on chrono's `Local::now` and `DateTime::timestamp`: the current
/// time in whole seconds since the Unix epoch. Nothing is promised of it.
#[verifier::external_body]
fn now_timestamp() -> (r: i64) {
    chrono::Local::now().timestamp()
}

/// The next collection in `tab_collections`, stamped with the current time:
/// absent exactly for an empty list.
pub fn get_bin_color(tab_collections: Vec<TabCollection>) -> (r: Option<BinColor>)
    ensures
        r is Some <==> tab_collections@.len() > 0,
        r matches Some(b) ==> b.spec_is_valid() && b@.update_date is Some
            && b@ == extracted(tab_collections@, b@.update_date->0),
{
    let now = now_timestamp();
    get_bin_color_at(&tab_collections, now)
}

} // verus!
