//! The keyword snapshot of a header block.
//!
//! A header block is a text made of records of [`FITS_LINE_LENGTH`]
//! characters.  A record that holds the delimiter `"= "` is a card: a keyword
//! before the delimiter, a value behind it, and an optional comment that a
//! `/` outside quotes starts.  The snapshot keeps the two axis lengths, the
//! two axis type codes, the frame family code, and every other card whose
//! value is a numeric literal.

use crate::error::{outcome, Error, ErrorView};
use crate::number::{is_float_literal, Number};
use crate::text::{
    comment_start, find_delimiter, first_delimiter, is_text, parse_unsigned, same_text, string_of,
    strip, strip_bounds, to_chars, uncommented, unsigned_of, Margin,
};
use vstd::prelude::*;
use vstd::slice::{slice_subrange, slice_to_vec};

verus! {

/// The length of a record.
pub const FITS_LINE_LENGTH: usize = 80;

/// What a snapshot holds.
pub struct HeaderView {
    /// The length of the first axis; 0 where the header gives none.
    pub naxis1: u64,
    /// The length of the second axis; 0 where the header gives none.
    pub naxis2: u64,
    /// The type code of the first axis; empty where the header gives none.
    pub ctype1: Seq<char>,
    /// The type code of the second axis; empty where the header gives none.
    pub ctype2: Seq<char>,
    /// The frame family code; empty where the header gives none.
    pub radesys: Seq<char>,
    /// The numeric cards: from keyword to literal.
    pub cards: Map<Seq<char>, Seq<char>>,
}

impl HeaderView {
    /// The snapshot of a header without cards.
    pub open spec fn empty() -> HeaderView {
        HeaderView {
            naxis1: 0,
            naxis2: 0,
            ctype1: Seq::empty(),
            ctype2: Seq::empty(),
            radesys: Seq::empty(),
            cards: Map::empty(),
        }
    }

    /// The length of axis `idx`, where the header gives a positive one.
    pub open spec fn naxisn(self, idx: int) -> Option<u64> {
        let value = if idx == 1 {
            self.naxis1
        } else if idx == 2 {
            self.naxis2
        } else {
            0
        };
        if value > 0 {
            Some(value)
        } else {
            None
        }
    }

    /// The type code of axis `idx`; empty where there is none.
    pub open spec fn ctype(self, idx: int) -> Seq<char> {
        if idx == 1 {
            self.ctype1
        } else if idx == 2 {
            self.ctype2
        } else {
            Seq::empty()
        }
    }

    /// The literal of the numeric card `key`, if the header has that card.
    pub open spec fn number(self, key: Seq<char>) -> Option<Seq<char>> {
        if self.cards.dom().contains(key) {
            Some(self.cards[key])
        } else {
            None
        }
    }

    /// The literal of the numeric card `key`, or `default` where the header
    /// has no such card.
    pub open spec fn number_or(self, key: Seq<char>, default: Seq<char>) -> Seq<char> {
        if self.cards.dom().contains(key) {
            self.cards[key]
        } else {
            default
        }
    }

    /// The snapshot after the card `key = value`, or `None` where the card
    /// gives an axis length that is no unsigned integer.
    pub open spec fn with_card(self, key: Seq<char>, value: Seq<char>) -> Option<HeaderView> {
        if key == "NAXIS1"@ {
            match unsigned_of(value) {
                Some(n) => Some(HeaderView { naxis1: n, ..self }),
                None => None,
            }
        } else if key == "NAXIS2"@ {
            match unsigned_of(value) {
                Some(n) => Some(HeaderView { naxis2: n, ..self }),
                None => None,
            }
        } else if key == "CTYPE1"@ {
            Some(HeaderView { ctype1: strip(value, Margin::Quote), ..self })
        } else if key == "CTYPE2"@ {
            Some(HeaderView { ctype2: strip(value, Margin::Quote), ..self })
        } else if key == "RADESYS"@ {
            Some(HeaderView { radesys: strip(strip(value, Margin::Quote), Margin::Blank), ..self })
        } else if is_float_literal(value) {
            Some(HeaderView { cards: self.cards.insert(key, value), ..self })
        } else {
            Some(self)
        }
    }

    /// The snapshot after one record.  A record without delimiter changes
    /// nothing.
    pub open spec fn with_record(self, line: Seq<char>) -> Option<HeaderView> {
        match card_of(line) {
            Some((key, value)) => self.with_card(key, value),
            None => Some(self),
        }
    }
}

/// The keyword and the value of a record, where it is a card: the keyword is
/// what stands before the first delimiter, the value what stands behind it
/// up to the comment, both without surrounding white space.
pub open spec fn card_of(line: Seq<char>) -> Option<(Seq<char>, Seq<char>)> {
    match first_delimiter(line) {
        Some(d) => Some(
            (
                strip(line.take(d), Margin::Blank),
                strip(uncommented(line.skip(d + 2)), Margin::Blank),
            ),
        ),
        None => None,
    }
}

/// Record `k` of the text `s`.
pub open spec fn record(s: Seq<char>, k: int) -> Seq<char> {
    s.subrange(FITS_LINE_LENGTH * k, FITS_LINE_LENGTH * k + FITS_LINE_LENGTH)
}

/// The number of whole records in `s`; what follows them is ignored.
pub open spec fn record_count(s: Seq<char>) -> nat {
    s.len() / FITS_LINE_LENGTH as nat
}

/// The snapshot after the first `n` records of `s`, or `None` where one of
/// them gives an axis length that is no unsigned integer.
pub open spec fn with_records(s: Seq<char>, n: nat) -> Option<HeaderView>
    decreases n,
{
    if n == 0 {
        Some(HeaderView::empty())
    } else {
        match with_records(s, (n - 1) as nat) {
            Some(h) => h.with_record(record(s, n - 1)),
            None => None,
        }
    }
}

/// What parsing the header text `s` gives: the snapshot after all its
/// records, or the failure to read an axis length.
pub open spec fn parsed(s: Seq<char>) -> Result<HeaderView, ErrorView> {
    match with_records(s, record_count(s)) {
        Some(h) => Ok(h),
        None => Err(ErrorView::NumericParseFailure),
    }
}

/// Once a record has failed, the records behind it change nothing.
pub proof fn lemma_failure_stays(s: Seq<char>, k: nat, n: nat)
    requires
        k <= n,
        with_records(s, k) is None,
    ensures
        with_records(s, n) is None,
    decreases n - k,
{
    if k < n {
        lemma_failure_stays(s, k, (n - 1) as nat);
    }
}

/// Whether the card `key = value` is kept as a numeric card: its keyword is
/// none of the five that are kept apart, and its value is a numeric literal.
pub open spec fn is_numeric_card(key: Seq<char>, value: Seq<char>) -> bool {
    &&& key != "NAXIS1"@
    &&& key != "NAXIS2"@
    &&& key != "CTYPE1"@
    &&& key != "CTYPE2"@
    &&& key != "RADESYS"@
    &&& is_float_literal(value)
}

/// Whether the record `line` is a numeric card of keyword `key`.
pub open spec fn gives_number(line: Seq<char>, key: Seq<char>) -> bool {
    card_of(line) matches Some((k, v)) && k == key && is_numeric_card(k, v)
}

/// A record changes the numeric card `key` exactly where it is a numeric
/// card of that keyword.
pub proof fn lemma_record_number(h: HeaderView, line: Seq<char>, key: Seq<char>)
    requires
        h.with_record(line) is Some,
    ensures
        h.with_record(line)->Some_0.number(key) == (if gives_number(line, key) {
            Some(card_of(line)->Some_0.1)
        } else {
            h.number(key)
        }),
{
}

/// Whether every numeric card of `h` holds a numeric literal.
pub open spec fn holds_literals(h: HeaderView) -> bool {
    forall|k: Seq<char>| h.cards.dom().contains(k) ==> is_float_literal(#[trigger] h.cards[k])
}

/// Every snapshot before the last is a snapshot too.
pub proof fn lemma_success_before(s: Seq<char>, k: nat, n: nat)
    requires
        k <= n,
        with_records(s, n) is Some,
    ensures
        with_records(s, k) is Some,
{
    if with_records(s, k) is None {
        lemma_failure_stays(s, k, n);
    }
}

/// After a numeric card of keyword `key` in record `k`, and no other behind
/// it among the first `n` records, the snapshot holds the value of that
/// card.
pub proof fn lemma_records_number(s: Seq<char>, k: int, n: nat, key: Seq<char>)
    requires
        0 <= k < n,
        with_records(s, n) is Some,
        gives_number(record(s, k), key),
        forall|j: int| k < j < n ==> !gives_number(#[trigger] record(s, j), key),
    ensures
        with_records(s, n)->Some_0.number(key) == Some(card_of(record(s, k))->Some_0.1),
    decreases n,
{
    lemma_success_before(s, (n - 1) as nat, n);
    let before = with_records(s, (n - 1) as nat)->Some_0;
    lemma_record_number(before, record(s, n - 1), key);
    if k < n - 1 {
        lemma_records_number(s, k, (n - 1) as nat, key);
    }
}

/// Without a numeric card of keyword `key` among the first `n` records, the
/// snapshot holds none.
pub proof fn lemma_records_no_number(s: Seq<char>, n: nat, key: Seq<char>)
    requires
        with_records(s, n) is Some,
        forall|j: int| 0 <= j < n ==> !gives_number(#[trigger] record(s, j), key),
    ensures
        with_records(s, n)->Some_0.number(key) is None,
    decreases n,
{
    if n > 0 {
        lemma_success_before(s, (n - 1) as nat, n);
        let before = with_records(s, (n - 1) as nat)->Some_0;
        lemma_record_number(before, record(s, n - 1), key);
        lemma_records_no_number(s, (n - 1) as nat, key);
    }
}

/// The last occurrence wins: the snapshot holds, for each keyword, the
/// value of the last numeric card of that keyword, and no value where the
/// text has no such card.
pub proof fn lemma_last_card_wins(s: Seq<char>, key: Seq<char>)
    requires
        parsed(s) is Ok,
    ensures
        forall|k: int|
            0 <= k < record_count(s) && gives_number(#[trigger] record(s, k), key) && (forall|
                j: int,
            |
                k < j < record_count(s) ==> !gives_number(#[trigger] record(s, j), key))
                ==> parsed(s)->Ok_0.number(key) == Some(card_of(record(s, k))->Some_0.1),
        (forall|j: int| 0 <= j < record_count(s) ==> !gives_number(#[trigger] record(s, j), key))
            ==> parsed(s)->Ok_0.number(key) is None,
{
    assert forall|k: int|
        0 <= k < record_count(s) && gives_number(#[trigger] record(s, k), key) && (forall|j: int|
            k < j < record_count(s) ==> !gives_number(
                #[trigger] record(s, j),
                key,
            )) implies parsed(s)->Ok_0.number(key) == Some(card_of(record(s, k))->Some_0.1) by {
        lemma_records_number(s, k, record_count(s), key);
    }
    if forall|j: int| 0 <= j < record_count(s) ==> !gives_number(#[trigger] record(s, j), key) {
        lemma_records_no_number(s, record_count(s), key);
    }
}

/// A snapshot keeps numeric literals only: a card whose value is none is
/// passed over.
pub proof fn lemma_records_keep_literals(s: Seq<char>, n: nat)
    requires
        with_records(s, n) is Some,
    ensures
        holds_literals(with_records(s, n)->Some_0),
    decreases n,
{
    if n > 0 {
        lemma_success_before(s, (n - 1) as nat, n);
        lemma_records_keep_literals(s, (n - 1) as nat);
    }
}

/// Parsing is a function of the text: whatever two runs over the same text
/// return agrees in every field of the snapshot, and in the failure.
pub proof fn lemma_parse_is_idempotent(
    s: Seq<char>,
    first: Result<WCSHeader, Error>,
    second: Result<WCSHeader, Error>,
)
    requires
        outcome(first) == parsed(s),
        outcome(second) == parsed(s),
    ensures
        outcome(first) == outcome(second),
{
}

/// Splits a record into keyword and value.
pub fn split_card(line: &[char]) -> (r: Option<(&[char], &[char])>)
    ensures
        match r {
            Some((key, value)) => card_of(line@) == Some((key@, value@)),
            None => card_of(line@) is None,
        },
{
    match find_delimiter(line) {
        None => None,
        Some(d) => {
            let n: usize = line.len();
            let head = slice_subrange(line, 0, d);
            let (k0, k1) = strip_bounds(head, Margin::Blank);
            let tail = slice_subrange(line, d + 2, n);
            let body = slice_subrange(tail, 0, comment_start(tail));
            let (v0, v1) = strip_bounds(body, Margin::Blank);
            Some((slice_subrange(head, k0, k1), slice_subrange(body, v0, v1)))
        },
    }
}

/// A numeric card.
#[derive(Debug)]
struct Card {
    key: Vec<char>,
    value: Number,
}

/// The keywords of `cards` differ from one another.
spec fn distinct_keys(cards: Seq<Card>) -> bool {
    forall|i: int, j: int|
        0 <= i < j < cards.len() ==> (#[trigger] cards[i]).key@ != (#[trigger] cards[j]).key@
}

/// The map that a list of cards stands for; a later card overrides an
/// earlier one of the same keyword.
spec fn cards_map(cards: Seq<Card>) -> Map<Seq<char>, Seq<char>>
    decreases cards.len(),
{
    if cards.len() == 0 {
        Map::empty()
    } else {
        cards_map(cards.drop_last()).insert(cards.last().key@, cards.last().value@)
    }
}

proof fn lemma_cards_map_absent(cards: Seq<Card>, key: Seq<char>)
    requires
        forall|i: int| 0 <= i < cards.len() ==> (#[trigger] cards[i]).key@ != key,
    ensures
        !cards_map(cards).dom().contains(key),
    decreases cards.len(),
{
    if cards.len() > 0 {
        let init = cards.drop_last();
        assert forall|i: int| 0 <= i < init.len() implies (#[trigger] init[i]).key@ != key by {
            assert(init[i] == cards[i]);
        }
        lemma_cards_map_absent(init, key);
        assert(cards.last() == cards[cards.len() - 1]);
    }
}

proof fn lemma_cards_map_present(cards: Seq<Card>, i: int)
    requires
        distinct_keys(cards),
        0 <= i < cards.len(),
    ensures
        cards_map(cards).dom().contains(cards[i].key@),
        cards_map(cards)[cards[i].key@] == cards[i].value@,
    decreases cards.len(),
{
    let init = cards.drop_last();
    if i < cards.len() - 1 {
        assert forall|a: int, b: int| 0 <= a < b < init.len() implies (#[trigger] init[a]).key@ != (
        #[trigger] init[b]).key@ by {
            assert(init[a] == cards[a] && init[b] == cards[b]);
        }
        lemma_cards_map_present(init, i);
        assert(init[i] == cards[i]);
        assert(cards[i].key@ != cards[cards.len() - 1].key@);
    }
}

proof fn lemma_cards_map_update(cards: Seq<Card>, i: int, card: Card)
    requires
        distinct_keys(cards),
        0 <= i < cards.len(),
        card.key@ == cards[i].key@,
    ensures
        distinct_keys(cards.update(i, card)),
        cards_map(cards.update(i, card)) == cards_map(cards).insert(card.key@, card.value@),
    decreases cards.len(),
{
    let after = cards.update(i, card);
    assert forall|a: int, b: int| 0 <= a < b < after.len() implies (#[trigger] after[a]).key@ != (
    #[trigger] after[b]).key@ by {
        assert(after[a].key@ == cards[a].key@);
        assert(after[b].key@ == cards[b].key@);
    }
    let init = cards.drop_last();
    if i == cards.len() - 1 {
        assert(after.drop_last() =~= init);
        assert(cards_map(after) =~= cards_map(cards).insert(card.key@, card.value@));
    } else {
        assert forall|a: int, b: int| 0 <= a < b < init.len() implies (#[trigger] init[a]).key@ != (
        #[trigger] init[b]).key@ by {
            assert(init[a] == cards[a] && init[b] == cards[b]);
        }
        assert(init[i] == cards[i]);
        lemma_cards_map_update(init, i, card);
        assert(after.drop_last() =~= init.update(i, card));
        assert(after.last() == cards.last());
        assert(cards[i].key@ != cards[cards.len() - 1].key@);
        assert(cards_map(after) =~= cards_map(cards).insert(card.key@, card.value@));
    }
}

/// The position of the card `key`.
fn find_card(cards: &Vec<Card>, key: &[char]) -> (r: Option<usize>)
    ensures
        match r {
            Some(i) => i < cards@.len() && cards@[i as int].key@ == key@,
            None => forall|i: int| 0 <= i < cards@.len() ==> (#[trigger] cards@[i]).key@ != key@,
        },
{
    let n: usize = cards.len();
    let mut i: usize = 0;
    while i < n
        invariant
            n == cards@.len(),
            i <= n,
            forall|j: int| 0 <= j < i ==> (#[trigger] cards@[j]).key@ != key@,
        decreases n - i,
    {
        if same_text(cards[i].key.as_slice(), key) {
            return Some(i);
        }
        i += 1;
    }
    None
}

/// Sets the card `key` to `value`, in place of an earlier card of that
/// keyword where there is one.
fn put_card(cards: &mut Vec<Card>, key: &[char], value: Number)
    requires
        distinct_keys(old(cards)@),
    ensures
        distinct_keys(final(cards)@),
        cards_map(final(cards)@) == cards_map(old(cards)@).insert(key@, value@),
{
    let card = Card { key: slice_to_vec(key), value };
    match find_card(cards, key) {
        Some(i) => {
            proof {
                lemma_cards_map_update(cards@, i as int, card);
            }
            cards.set(i, card);
        },
        None => {
            proof {
                assert(cards@.push(card).drop_last() =~= cards@);
            }
            cards.push(card);
        },
    }
}

/// The fields of a snapshot.
#[derive(Debug)]
struct Keywords {
    naxis1: u64,
    naxis2: u64,
    ctype1: Vec<char>,
    ctype2: Vec<char>,
    radesys: Vec<char>,
    cards: Vec<Card>,
}

impl View for Keywords {
    type V = HeaderView;

    closed spec fn view(&self) -> HeaderView {
        HeaderView {
            naxis1: self.naxis1,
            naxis2: self.naxis2,
            ctype1: self.ctype1@,
            ctype2: self.ctype2@,
            radesys: self.radesys@,
            cards: cards_map(self.cards@),
        }
    }
}

impl Keywords {
    /// Takes in the card `key = value`.
    fn record_card(&mut self, key: &[char], value: &[char]) -> (r: Result<(), Error>)
        requires
            distinct_keys(old(self).cards@),
        ensures
            r is Ok ==> distinct_keys(final(self).cards@),
            match old(self)@.with_card(key@, value@) {
                Some(h) => r is Ok && final(self)@ == h,
                None => r matches Err(e) && e@ == ErrorView::NumericParseFailure,
            },
    {
        if is_text(key, "NAXIS1") {
            match parse_unsigned(value) {
                Some(n) => {
                    self.naxis1 = n;
                },
                None => {
                    return Err(Error::NumericParseFailure);
                },
            }
        } else if is_text(key, "NAXIS2") {
            match parse_unsigned(value) {
                Some(n) => {
                    self.naxis2 = n;
                },
                None => {
                    return Err(Error::NumericParseFailure);
                },
            }
        } else if is_text(key, "CTYPE1") {
            let (a, b) = strip_bounds(value, Margin::Quote);
            self.ctype1 = slice_to_vec(slice_subrange(value, a, b));
        } else if is_text(key, "CTYPE2") {
            let (a, b) = strip_bounds(value, Margin::Quote);
            self.ctype2 = slice_to_vec(slice_subrange(value, a, b));
        } else if is_text(key, "RADESYS") {
            let (a, b) = strip_bounds(value, Margin::Quote);
            let inner = slice_subrange(value, a, b);
            let (c, d) = strip_bounds(inner, Margin::Blank);
            self.radesys = slice_to_vec(slice_subrange(inner, c, d));
        } else {
            match Number::from_chars(value) {
                Some(number) => {
                    put_card(&mut self.cards, key, number);
                },
                None => {},
            }
        }
        Ok(())
    }
}

/// The keyword snapshot of one header block.
#[derive(Debug)]
pub struct WCSHeader {
    keywords: Keywords,
}

impl View for WCSHeader {
    type V = HeaderView;

    closed spec fn view(&self) -> HeaderView {
        self.keywords@
    }
}

impl WCSHeader {
    #[verifier::type_invariant]
    spec fn well_formed(&self) -> bool {
        distinct_keys(self.keywords.cards@)
    }

    /// Parses a header block.
    ///
    /// The text is read record by record; characters behind the last whole
    /// record are ignored.  A later card overrides an earlier one of the
    /// same keyword.  The only failure is an axis length that is no unsigned
    /// integer; a card whose value is no numeric literal is passed over.
    pub fn new(s: &str) -> (r: Result<WCSHeader, Error>)
        ensures
            outcome(r) == parsed(s@),
    {
        let text = to_chars(s);
        let count: usize = text.len() / FITS_LINE_LENGTH;
        let mut keywords = Keywords {
            naxis1: 0,
            naxis2: 0,
            ctype1: Vec::new(),
            ctype2: Vec::new(),
            radesys: Vec::new(),
            cards: Vec::new(),
        };
        let mut k: usize = 0;
        while k < count
            invariant
                text@ == s@,
                count == record_count(s@),
                count * FITS_LINE_LENGTH <= text@.len() <= usize::MAX,
                k <= count,
                distinct_keys(keywords.cards@),
                with_records(s@, k as nat) == Some(keywords@),
            decreases count - k,
        {
            let line = slice_subrange(
                text.as_slice(),
                k * FITS_LINE_LENGTH,
                k * FITS_LINE_LENGTH + FITS_LINE_LENGTH,
            );
            assert(line@ == record(s@, k as int));
            match split_card(line) {
                Some((key, value)) => {
                    match keywords.record_card(key, value) {
                        Ok(()) => {},
                        Err(e) => {
                            proof {
                                lemma_failure_stays(s@, (k + 1) as nat, count as nat);
                            }
                            return Err(e);
                        },
                    }
                },
                None => {},
            }
            k += 1;
        }
        Ok(WCSHeader { keywords })
    }

    /// The length of axis `idx` (1 or 2), where the header gives a positive
    /// one.
    pub fn get_naxisn(&self, idx: usize) -> (r: Option<u64>)
        ensures
            r == self@.naxisn(idx as int),
    {
        let value: u64 = if idx == 1 {
            self.keywords.naxis1
        } else if idx == 2 {
            self.keywords.naxis2
        } else {
            0
        };
        if value > 0 {
            Some(value)
        } else {
            None
        }
    }

    /// The type code of axis `idx` (1 or 2).
    pub fn get_ctype(&self, idx: usize) -> (r: Result<String, Error>)
        ensures
            match r {
                Ok(code) => code@ == self@.ctype(idx as int) && code@.len() > 0,
                Err(e) => self@.ctype(idx as int).len() == 0
                    && e@ == ErrorView::MandatoryWCSKeywordsMissing("CTYPE"@),
            },
    {
        if idx == 1 && self.keywords.ctype1.len() > 0 {
            Ok(string_of(self.keywords.ctype1.as_slice()))
        } else if idx == 2 && self.keywords.ctype2.len() > 0 {
            Ok(string_of(self.keywords.ctype2.as_slice()))
        } else {
            Err(Error::MandatoryWCSKeywordsMissing("CTYPE"))
        }
    }

    /// The frame family code.
    pub fn get_radesys(&self) -> (r: Result<String, Error>)
        ensures
            match r {
                Ok(code) => code@ == self@.radesys && code@.len() > 0,
                Err(e) => self@.radesys.len() == 0 && e@ == ErrorView::MandatoryWCSKeywordsMissing(
                    "RADESYS"@,
                ),
            },
    {
        if self.keywords.radesys.len() > 0 {
            Ok(string_of(self.keywords.radesys.as_slice()))
        } else {
            Err(Error::MandatoryWCSKeywordsMissing("RADESYS"))
        }
    }

    /// The numeric card whose keyword is exactly `key`.
    pub fn number(&self, key: &[char]) -> (r: Option<Number>)
        ensures
            match r {
                Some(n) => self@.number(key@) == Some(n@),
                None => self@.number(key@) is None,
            },
    {
        proof {
            use_type_invariant(self);
        }
        match find_card(&self.keywords.cards, key) {
            Some(i) => {
                proof {
                    lemma_cards_map_present(self.keywords.cards@, i as int);
                }
                Some(self.keywords.cards[i].value.clone())
            },
            None => {
                proof {
                    lemma_cards_map_absent(self.keywords.cards@, key@);
                }
                None
            },
        }
    }

    /// The numeric card whose keyword is exactly `key`, or `default` where
    /// the header has no such card.
    pub fn number_or(&self, key: &[char], default: Number) -> (r: Number)
        ensures
            r@ == self@.number_or(key@, default@),
    {
        match self.number(key) {
            Some(n) => n,
            None => default,
        }
    }

    /// The numeric card `key`.  White space around `key` does not count, so
    /// a keyword padded to the width of its field finds its card.  Cards
    /// whose value is no literal are not in the snapshot, so what is found
    /// is always a number.
    pub fn get_float(&self, key: &str) -> (r: Option<Result<Number, Error>>)
        ensures
            match r {
                Some(Ok(n)) => self@.number(strip(key@, Margin::Blank)) == Some(n@),
                Some(Err(_)) => false,
                None => self@.number(strip(key@, Margin::Blank)) is None,
            },
    {
        let chars = to_chars(key);
        let (a, b) = strip_bounds(chars.as_slice(), Margin::Blank);
        match self.number(slice_subrange(chars.as_slice(), a, b)) {
            Some(n) => Some(Ok(n)),
            None => None,
        }
    }

    /// The numeric card `key` as an unsigned integer.  White space around
    /// `key` does not count.  A card whose literal writes no unsigned
    /// integer is a failure.
    pub fn get_int(&self, key: &str) -> (r: Option<Result<u64, Error>>)
        ensures
            match r {
                Some(Ok(n)) => self@.number(strip(key@, Margin::Blank)) matches Some(v)
                    && unsigned_of(v) == Some(n),
                Some(Err(e)) => self@.number(strip(key@, Margin::Blank)) matches Some(v)
                    && unsigned_of(v) is None && e@ == ErrorView::NumericParseFailure,
                None => self@.number(strip(key@, Margin::Blank)) is None,
            },
    {
        match self.get_float(key) {
            Some(Ok(n)) => match n.to_unsigned() {
                Some(v) => Some(Ok(v)),
                None => Some(Err(Error::NumericParseFailure)),
            },
            Some(Err(e)) => Some(Err(e)),
            None => None,
        }
    }
}

} // verus!
