//! Support-card decks: five cards and a friend card.

use vstd::prelude::*;
use vstd::slice::slice_subrange;
use vstd::string::*;

use crate::error::ProbeError;
#[allow(unused_imports)]
use crate::error::{texts, ErrorModel};
use crate::numeral::{parse_u32, IntFault};
#[allow(unused_imports)]
use crate::numeral::{law_decimal_is_read_back, law_int_is_in_range, lemma_decimal, read_int};
use crate::text::{chars_of, same_text, white_space};
#[allow(unused_imports)]
use crate::text::{
    decimal, is_blank, is_digit, is_white_space, join, law_split_at_separator, law_split_undoes_join,
    law_trim_ignores_padding, law_trim_removes_only_white_space, lemma_trim_blank, split, trim,
};

verus! {

/// The trimmed texts of `pieces` that are not empty, in order.
pub open spec fn entries(pieces: Seq<Seq<char>>) -> Seq<Seq<char>>
    decreases pieces.len(),
{
    if pieces.len() == 0 {
        Seq::empty()
    } else {
        let before = entries(pieces.drop_last());
        let entry = trim(pieces.last());
        if entry.len() == 0 {
            before
        } else {
            before.push(entry)
        }
    }
}

/// The card ids that `items` denote, or what is wrong with the first item that
/// denotes none.
pub open spec fn card_ids(items: Seq<Seq<char>>) -> Result<Seq<u32>, IntFault>
    decreases items.len(),
{
    if items.len() == 0 {
        Ok(Seq::empty())
    } else {
        match card_ids(items.drop_last()) {
            Err(fault) => Err(fault),
            Ok(before) => match read_int(items.last(), 0, u32::MAX as int) {
                Err(fault) => Err(fault),
                Ok(id) => Ok(before.push(id as u32)),
            },
        }
    }
}

/// The deck that the text `s` denotes: comma-separated card ids, blank entries
/// ignored, five of them with `friend` as the sixth card, or six.
pub open spec fn deck_of(s: Seq<char>, friend: u32) -> Result<Seq<u32>, ErrorModel> {
    match card_ids(entries(split(s, ','))) {
        Err(fault) => Err(ErrorModel::DeckEntry { fault }),
        Ok(ids) => if ids.len() == 5 {
            Ok(ids.push(friend))
        } else if ids.len() == 6 {
            Ok(ids)
        } else {
            Err(ErrorModel::DeckSize { found: ids.len(), text: s })
        },
    }
}

/// Whether `text` denotes the card with this id.
pub open spec fn denotes(text: Seq<char>, id: u32) -> bool {
    read_int(text, 0, 0xFFFF_FFFF) == Ok::<int, IntFault>(id as int)
}

/// Where texts denote card ids, there is one id for each text, the one that it denotes.
proof fn lemma_card_ids(items: Seq<Seq<char>>)
    ensures
        card_ids(items) matches Ok(ids) ==> ids.len() == items.len() && forall|i: int|
            0 <= i < items.len() ==> denotes(#[trigger] items[i], ids[i]),
    decreases items.len(),
{
    if items.len() > 0 && card_ids(items) is Ok {
        let front = items.drop_last();
        lemma_card_ids(front);
        let ids = card_ids(items)->Ok_0;
        let before = card_ids(front)->Ok_0;
        law_int_is_in_range(items.last(), 0, u32::MAX as int);
        assert forall|i: int| 0 <= i < items.len() implies denotes(#[trigger] items[i], ids[i]) by {
            if i < front.len() {
                assert(front[i] == items[i]);
                assert(ids[i] == before[i]);
            }
        }
    }
}

/// A text that denotes no card id is at fault where those before it denote some.
proof fn lemma_card_fault(items: Seq<Seq<char>>)
    ensures
        card_ids(items) matches Err(fault) ==> exists|i: int|
            #![trigger items[i]]
            0 <= i < items.len() && read_int(items[i], 0, 0xFFFF_FFFF) == Err::<int, IntFault>(fault)
                && forall|j: int|
                0 <= j < i ==> read_int(#[trigger] items[j], 0, 0xFFFF_FFFF) is Ok,
    decreases items.len(),
{
    if items.len() > 0 && card_ids(items) is Err {
        let front = items.drop_last();
        let fault = card_ids(items)->Err_0;
        lemma_card_ids(front);
        lemma_card_fault(front);
        if card_ids(front) is Err {
            let i = choose|i: int|
                #![trigger front[i]]
                0 <= i < front.len() && read_int(front[i], 0, 0xFFFF_FFFF) == Err::<int, IntFault>(
                    fault,
                ) && forall|j: int|
                    0 <= j < i ==> read_int(#[trigger] front[j], 0, 0xFFFF_FFFF) is Ok;
            assert(front[i] == items[i]);
            assert forall|j: int| 0 <= j < i implies read_int(
                #[trigger] items[j],
                0,
                0xFFFF_FFFF,
            ) is Ok by {
                assert(front[j] == items[j]);
            }
        } else {
            let last = items.len() - 1;
            assert(items[last] == items.last());
            assert forall|j: int| 0 <= j < last implies read_int(
                #[trigger] items[j],
                0,
                0xFFFF_FFFF,
            ) is Ok by {
                assert(front[j] == items[j]);
                assert(denotes(front[j], card_ids(front)->Ok_0[j]));
            }
        }
    }
}

/// The contents of each vector.
spec fn views(v: Seq<Vec<char>>) -> Seq<Seq<char>> {
    Seq::new(v.len(), |i: int| v[i]@)
}

/// The pieces of `s` between its commas.
fn split_commas(s: &Vec<char>) -> (r: Vec<Vec<char>>)
    ensures
        views(r@) == split(s@, ','),
{
    let mut done: Vec<Vec<char>> = Vec::new();
    let mut piece: Vec<char> = Vec::new();
    let n: usize = s.len();
    let mut i: usize = 0;
    while i < n
        invariant
            n == s@.len(),
            i <= n,
            views(done@).push(piece@) == split(s@.take(i as int), ','),
        decreases n - i,
    {
        let c = s[i];
        proof {
            let longer = s@.take(i as int + 1);
            assert(longer.drop_last() == s@.take(i as int));
            assert(longer.last() == c);
            assert(views(done@).push(piece@).drop_last() == views(done@));
        }
        if c == ',' {
            let ghost old_done = done@;
            let ghost old_piece = piece@;
            done.push(piece);
            piece = Vec::new();
            assert(views(done@) == views(old_done).push(old_piece));
        } else {
            piece.push(c);
        }
        i = i + 1;
    }
    let ghost old_done = done@;
    let ghost old_piece = piece@;
    done.push(piece);
    proof {
        assert(s@.take(n as int) == s@);
        assert(views(done@) == views(old_done).push(old_piece));
    }
    done
}

/// The bounds of `s` without the white space at its two ends.
fn trim_bounds(s: &Vec<char>) -> (r: (usize, usize))
    ensures
        r.0 <= r.1 <= s@.len(),
        s@.subrange(r.0 as int, r.1 as int) == trim(s@),
{
    let mut from: usize = 0;
    let mut to: usize = s.len();
    assert(s@.subrange(0, s@.len() as int) == s@);
    while from < to && white_space(s[from])
        invariant
            from <= to <= s@.len(),
            trim(s@.subrange(from as int, to as int)) == trim(s@),
        decreases to - from,
    {
        assert(s@.subrange(from as int, to as int).drop_first() == s@.subrange(
            from as int + 1,
            to as int,
        ));
        from = from + 1;
    }
    while from < to && white_space(s[to - 1])
        invariant
            from <= to <= s@.len(),
            from < to ==> !is_white_space(s@[from as int]),
            trim(s@.subrange(from as int, to as int)) == trim(s@),
        decreases to - from,
    {
        assert(s@.subrange(from as int, to as int).drop_last() == s@.subrange(
            from as int,
            to as int - 1,
        ));
        to = to - 1;
    }
    (from, to)
}

/// Reads a custom deck: `id1,id2,id3,id4,id5[,friend]`. White space around an
/// entry and blank entries do not count. Where the sixth card is left out,
/// `friend` takes its place.
pub fn parse_deck(s: &str, friend: u32) -> (r: Result<[u32; 6], ProbeError>)
    ensures
        match r {
            Ok(deck) => deck_of(s@, friend) == Ok::<Seq<u32>, ErrorModel>(deck@),
            Err(e) => deck_of(s@, friend) == Err::<Seq<u32>, ErrorModel>(e@),
        },
        ({
            let items = entries(split(s@, ','));
            match r {
                Ok(deck) => {
                    &&& items.len() == 5 || items.len() == 6
                    &&& forall|i: int|
                        0 <= i < items.len() ==> denotes(#[trigger] items[i], deck@[i])
                    &&& items.len() == 5 ==> deck@[5] == friend
                },
                Err(e) => e is DeckEntry || e is DeckSize,
            }
        }),
{
    let chars = chars_of(s);
    let pieces = split_commas(&chars);
    let ghost all = views(pieces@);
    let mut ids: Vec<u32> = Vec::new();
    let n: usize = pieces.len();
    let mut i: usize = 0;
    while i < n
        invariant
            n == pieces@.len(),
            i <= n,
            all == views(pieces@),
            all == split(s@, ','),
            card_ids(entries(all.take(i as int))) == Ok::<Seq<u32>, IntFault>(ids@),
        decreases n - i,
    {
        let bounds = trim_bounds(&pieces[i]);
        proof {
            let longer = all.take(i as int + 1);
            assert(longer.drop_last() == all.take(i as int));
            assert(longer.last() == pieces@[i as int]@);
        }
        if bounds.0 < bounds.1 {
            let entry = slice_subrange(pieces[i].as_slice(), bounds.0, bounds.1);
            let ghost before = entries(all.take(i as int));
            let ghost now = entries(all.take(i as int + 1));
            assert(now == before.push(entry@));
            assert(now.drop_last() == before);
            match parse_u32(entry) {
                Ok(id) => {
                    ids.push(id);
                },
                Err(fault) => {
                    proof {
                        lemma_first_fault(all, i as int + 1, fault);
                    }
                    return Err(ProbeError::DeckEntry { fault });
                },
            }
        }
        i = i + 1;
    }
    assert(all.take(n as int) == all);
    if ids.len() != 5 && ids.len() != 6 {
        return Err(ProbeError::DeckSize { found: ids.len(), text: s.to_owned() });
    }
    let sixth: u32 = if ids.len() == 6 { ids[5] } else { friend };
    let deck: [u32; 6] = [ids[0], ids[1], ids[2], ids[3], ids[4], sixth];
    proof {
        lemma_card_ids(entries(all));
    }
    assert(ids@.len() == 6 ==> deck@ == ids@);
    assert(ids@.len() == 5 ==> deck@ == ids@.push(friend));
    Ok(deck)
}

/// The fault of a prefix of the pieces is the fault of all of them.
proof fn lemma_first_fault(pieces: Seq<Seq<char>>, n: int, fault: IntFault)
    requires
        0 <= n <= pieces.len(),
        card_ids(entries(pieces.take(n))) == Err::<Seq<u32>, IntFault>(fault),
    ensures
        card_ids(entries(pieces)) == Err::<Seq<u32>, IntFault>(fault),
    decreases pieces.len() - n,
{
    if n == pieces.len() {
        assert(pieces.take(n) == pieces);
    } else {
        let longer = pieces.take(n + 1);
        assert(longer.drop_last() == pieces.take(n));
        let before = entries(pieces.take(n));
        let now = entries(longer);
        if now != before {
            assert(now.drop_last() == before);
        }
        lemma_first_fault(pieces, n + 1, fault);
    }
}

/// Where the deck of a run comes from.
#[derive(Clone, Copy, Debug)]
pub enum DeckChoice {
    /// The deck given on the command line.
    Custom { deck: [u32; 6] },
    /// The preset build at this index.
    Preset { index: usize },
}

/// `DeckChoice` with the deck as a sequence.
pub enum ChoiceModel {
    Custom { deck: Seq<u32> },
    Preset { index: nat },
}

impl View for DeckChoice {
    type V = ChoiceModel;

    open spec fn view(&self) -> ChoiceModel {
        match *self {
            DeckChoice::Custom { deck } => ChoiceModel::Custom { deck: deck@ },
            DeckChoice::Preset { index } => ChoiceModel::Preset { index: index as nat },
        }
    }
}

/// The first index at which `names` holds `name`, or the length of `names`.
pub open spec fn first_index(names: Seq<Seq<char>>, name: Seq<char>) -> nat
    decreases names.len(),
{
    if names.len() == 0 || names[0] == name {
        0
    } else {
        1 + first_index(names.drop_first(), name)
    }
}

/// The deck that a run uses: the custom deck where there is one, else the first
/// preset build with the wanted name.
pub open spec fn chosen_deck(
    build: Seq<char>,
    deck_override: Option<Seq<char>>,
    friend: u32,
    names: Seq<Seq<char>>,
) -> Result<ChoiceModel, ErrorModel> {
    match deck_override {
        Some(text) => match deck_of(text, friend) {
            Ok(deck) => Ok(ChoiceModel::Custom { deck }),
            Err(e) => Err(e),
        },
        None => if names.contains(build) {
            Ok(ChoiceModel::Preset { index: first_index(names, build) })
        } else {
            Err(ErrorModel::UnknownBuild { build, names })
        },
    }
}

/// The first occurrence is where `name` stands and has not stood before.
proof fn lemma_first_index(names: Seq<Seq<char>>, name: Seq<char>, k: int)
    requires
        0 <= k < names.len(),
        names[k] == name,
        forall|j: int| 0 <= j < k ==> #[trigger] names[j] != name,
    ensures
        first_index(names, name) == k,
    decreases k,
{
    if k > 0 {
        let rest = names.drop_first();
        assert(names[0] != name);
        assert forall|j: int| 0 <= j < k - 1 implies #[trigger] rest[j] != name by {
            assert(rest[j] == names[j + 1]);
        }
        lemma_first_index(rest, name, k - 1);
    }
}

/// Decides which deck a run uses. A custom deck takes precedence over the build;
/// `names` holds the names of the preset builds and is not looked at where there
/// is a custom deck.
pub fn resolve_deck(
    build: &str,
    deck_override: Option<&str>,
    friend: u32,
    names: &Vec<String>,
) -> (r: Result<DeckChoice, ProbeError>)
    ensures
        ({
            let given = match deck_override {
                Some(text) => Some(text@),
                None => None,
            };
            match r {
                Ok(choice) => chosen_deck(build@, given, friend, texts(names@)) == Ok::<
                    ChoiceModel,
                    ErrorModel,
                >(choice@),
                Err(e) => chosen_deck(build@, given, friend, texts(names@)) == Err::<
                    ChoiceModel,
                    ErrorModel,
                >(e@),
            }
        }),
        deck_override is None ==> match r {
            Ok(choice) => {
                &&& choice matches DeckChoice::Preset { index }
                &&& index < names@.len()
                &&& names@[index as int]@ == build@
                &&& forall|j: int| 0 <= j < index ==> (#[trigger] names@[j])@ != build@
            },
            Err(e) => {
                &&& e is UnknownBuild
                &&& forall|j: int| 0 <= j < names@.len() ==> (#[trigger] names@[j])@ != build@
            },
        },
        deck_override is Some ==> match r {
            Ok(choice) => choice is Custom,
            Err(e) => e is DeckEntry || e is DeckSize,
        },
{
    if let Some(text) = deck_override {
        return match parse_deck(text, friend) {
            Ok(deck) => Ok(DeckChoice::Custom { deck }),
            Err(e) => Err(e),
        };
    }
    let ghost all = texts(names@);
    let n: usize = names.len();
    let mut i: usize = 0;
    while i < n
        invariant
            n == names@.len(),
            i <= n,
            all == texts(names@),
            deck_override is None,
            forall|j: int| 0 <= j < i ==> #[trigger] all[j] != build@,
        decreases n - i,
    {
        assert(all[i as int] == names@[i as int]@);
        if same_text(names[i].as_str(), build) {
            proof {
                lemma_first_index(all, build@, i as int);
                assert forall|j: int| 0 <= j < i implies (#[trigger] names@[j])@ != build@ by {
                    assert(all[j] != build@);
                }
            }
            return Ok(DeckChoice::Preset { index: i });
        }
        i = i + 1;
    }
    let copies = names.clone();
    assert(texts(copies@) =~= all);
    assert forall|j: int| 0 <= j < names@.len() implies (#[trigger] names@[j])@ != build@ by {
        assert(all[j] != build@);
    }
    Err(ProbeError::UnknownBuild { build: build.to_owned(), names: copies })
}

/// The ids of `cards` in decimal notation.
pub open spec fn card_texts(cards: Seq<u32>) -> Seq<Seq<char>> {
    Seq::new(cards.len(), |i: int| decimal(cards[i] as nat))
}

/// Texts of card ids are entries as they stand and denote the ids.
proof fn lemma_card_texts(cards: Seq<u32>)
    ensures
        entries(card_texts(cards)) == card_texts(cards),
        card_ids(card_texts(cards)) == Ok::<Seq<u32>, IntFault>(cards),
    decreases cards.len(),
{
    let items = card_texts(cards);
    if cards.len() > 0 {
        let shorter = cards.drop_last();
        lemma_card_texts(shorter);
        assert(items.drop_last() == card_texts(shorter));
        let id = cards.last() as nat;
        assert(items.last() == decimal(id));
        lemma_decimal(id);
        assert(is_digit(decimal(id)[0]) && is_digit(decimal(id).last()));
        assert(trim(decimal(id)) == decimal(id));
        assert(items == items.drop_last().push(items.last()));
        law_decimal_is_read_back(id as int, 0, u32::MAX as int);
        assert(cards == shorter.push(cards.last()));
    } else {
        assert(items == Seq::<Seq<char>>::empty());
        assert(cards == Seq::<u32>::empty());
    }
}

/// Six card ids written out with commas between them are read back as themselves;
/// of five, `friend` becomes the sixth.
pub proof fn law_deck_is_read_back(cards: Seq<u32>, friend: u32)
    requires
        cards.len() == 5 || cards.len() == 6,
    ensures
        deck_of(join(card_texts(cards), seq![',']), friend) == Ok::<Seq<u32>, ErrorModel>(
            if cards.len() == 5 {
                cards.push(friend)
            } else {
                cards
            },
        ),
{
    let items = card_texts(cards);
    assert forall|i: int| 0 <= i < items.len() implies !(#[trigger] items[i]).contains(',') by {
        lemma_decimal(cards[i] as nat);
        assert(items[i] == decimal(cards[i] as nat));
        assert forall|j: int| 0 <= j < items[i].len() implies items[i][j] != ',' by {
            assert(is_digit(decimal(cards[i] as nat)[j]));
        }
    }
    law_split_undoes_join(items, ',');
    lemma_card_texts(cards);
}

/// Whether two readings are alike: the same deck, the same fault in an entry, or the
/// same wrong number of entries.
pub open spec fn alike(a: Result<Seq<u32>, ErrorModel>, b: Result<Seq<u32>, ErrorModel>) -> bool {
    match (a, b) {
        (
            Err(ErrorModel::DeckSize { found, text }),
            Err(ErrorModel::DeckSize { found: other_found, text: other_text }),
        ) => found == other_found,
        _ => a == b,
    }
}

/// Only the entries count: whatever blank pieces two texts have and whatever white
/// space stands around their pieces, if the trimmed pieces that are not empty are the
/// same, both are readable or neither is, and they denote the same deck.
pub proof fn law_only_entries_count(s: Seq<char>, t: Seq<char>, friend: u32)
    requires
        entries(split(s, ',')) == entries(split(t, ',')),
    ensures
        alike(deck_of(s, friend), deck_of(t, friend)),
        deck_of(s, friend) is Ok <==> deck_of(t, friend) is Ok,
        deck_of(s, friend) is Ok ==> deck_of(s, friend) == deck_of(t, friend),
{
}

/// The entries of two series of pieces are those of the one and those of the other.
proof fn lemma_entries_append(a: Seq<Seq<char>>, b: Seq<Seq<char>>)
    ensures
        entries(a + b) == entries(a) + entries(b),
    decreases b.len(),
{
    if b.len() == 0 {
        assert(a + b == a);
        assert(entries(a) + entries(b) =~= entries(a));
    } else {
        lemma_entries_append(a, b.drop_last());
        assert((a + b).drop_last() == a + b.drop_last());
        assert((a + b).last() == b.last());
        assert(entries(a + b) =~= entries(a) + entries(b));
    }
}

/// White space is no comma.
proof fn lemma_blank_has_no_entries(blank: Seq<char>)
    requires
        is_blank(blank),
    ensures
        split(blank, ',') == seq![blank],
        entries(split(blank, ',')) == Seq::<Seq<char>>::empty(),
{
    assert forall|i: int| 0 <= i < blank.len() implies blank[i] != ',' by {
        assert(is_white_space(blank[i]));
    }
    law_split_undoes_join(seq![blank], ',');
    assert(join(seq![blank], seq![',']) == blank);
    lemma_trim_blank(blank);
    let pieces = seq![blank];
    assert(pieces.drop_last() == Seq::<Seq<char>>::empty());
    assert(entries(pieces.drop_last()) == Seq::<Seq<char>>::empty());
}

/// A blank piece does not matter, neither in front of a text, nor behind it, nor
/// between two pieces.
pub proof fn law_blank_pieces_are_ignored(
    front: Seq<char>,
    blank: Seq<char>,
    back: Seq<char>,
    friend: u32,
)
    requires
        is_blank(blank),
    ensures
        alike(
            deck_of(front + seq![','] + (blank + seq![','] + back), friend),
            deck_of(front + seq![','] + back, friend),
        ),
        alike(deck_of(blank + seq![','] + back, friend), deck_of(back, friend)),
        alike(deck_of(front + seq![','] + blank, friend), deck_of(front, friend)),
{
    let none = Seq::<Seq<char>>::empty();
    lemma_blank_has_no_entries(blank);
    let tail = blank + seq![','] + back;
    law_split_at_separator(blank, ',', back);
    law_split_at_separator(front, ',', tail);
    law_split_at_separator(front, ',', back);
    law_split_at_separator(front, ',', blank);
    lemma_entries_append(split(blank, ','), split(back, ','));
    lemma_entries_append(split(front, ','), split(tail, ','));
    lemma_entries_append(split(front, ','), split(back, ','));
    lemma_entries_append(split(front, ','), split(blank, ','));
    assert(none + entries(split(back, ',')) =~= entries(split(back, ',')));
    assert(entries(split(front, ',')) + none =~= entries(split(front, ',')));
}

/// The entries of a piece do not depend on the white space around it.
proof fn lemma_padded_piece(left: Seq<char>, piece: Seq<char>, right: Seq<char>)
    requires
        is_blank(left),
        is_blank(right),
        !piece.contains(','),
    ensures
        entries(split(left + piece + right, ',')) == entries(split(piece, ',')),
{
    let padded = left + piece + right;
    assert forall|i: int| 0 <= i < padded.len() implies padded[i] != ',' by {
        if i < left.len() {
            assert(is_white_space(left[i]));
        } else if i < left.len() + piece.len() {
            assert(padded[i] == piece[i - left.len()]);
        } else {
            assert(is_white_space(right[i - left.len() - piece.len()]));
        }
    }
    law_split_undoes_join(seq![padded], ',');
    law_split_undoes_join(seq![piece], ',');
    assert(join(seq![padded], seq![',']) == padded);
    assert(join(seq![piece], seq![',']) == piece);
    law_trim_ignores_padding(left, piece, right);
    assert(seq![padded].drop_last() == seq![piece].drop_last());
}

/// White space around a piece does not matter, be it the only piece of a text, its
/// first, its last, or one between two others.
pub proof fn law_padding_is_ignored(
    front: Seq<char>,
    left: Seq<char>,
    piece: Seq<char>,
    right: Seq<char>,
    back: Seq<char>,
    friend: u32,
)
    requires
        is_blank(left),
        is_blank(right),
        !piece.contains(','),
    ensures
        alike(deck_of(left + piece + right, friend), deck_of(piece, friend)),
        alike(
            deck_of((left + piece + right) + seq![','] + back, friend),
            deck_of(piece + seq![','] + back, friend),
        ),
        alike(
            deck_of(front + seq![','] + (left + piece + right), friend),
            deck_of(front + seq![','] + piece, friend),
        ),
        alike(
            deck_of(front + seq![','] + ((left + piece + right) + seq![','] + back), friend),
            deck_of(front + seq![','] + (piece + seq![','] + back), friend),
        ),
{
    let padded = left + piece + right;
    lemma_padded_piece(left, piece, right);
    law_split_at_separator(padded, ',', back);
    law_split_at_separator(piece, ',', back);
    law_split_at_separator(front, ',', padded);
    law_split_at_separator(front, ',', piece);
    law_split_at_separator(front, ',', padded + seq![','] + back);
    law_split_at_separator(front, ',', piece + seq![','] + back);
    let f = split(front, ',');
    let b = split(back, ',');
    lemma_entries_append(split(padded, ','), b);
    lemma_entries_append(split(piece, ','), b);
    lemma_entries_append(f, split(padded, ','));
    lemma_entries_append(f, split(piece, ','));
    lemma_entries_append(f, split(padded + seq![','] + back, ','));
    lemma_entries_append(f, split(piece + seq![','] + back, ','));
}

/// A custom deck makes the build and the preset builds irrelevant.
pub proof fn law_custom_deck_takes_precedence(
    build: Seq<char>,
    other_build: Seq<char>,
    text: Seq<char>,
    friend: u32,
    names: Seq<Seq<char>>,
    other_names: Seq<Seq<char>>,
)
    ensures
        chosen_deck(build, Some(text), friend, names) == chosen_deck(
            other_build,
            Some(text),
            friend,
            other_names,
        ),
{
}

/// A preset build that is chosen is the first of the wanted name: its index is below the
/// number of names, the wanted name stands there, and it stands nowhere before.
pub proof fn law_preset_is_the_first_of_its_name(
    build: Seq<char>,
    friend: u32,
    names: Seq<Seq<char>>,
)
    ensures
        match chosen_deck(build, None, friend, names) {
            Ok(choice) => {
                &&& choice matches ChoiceModel::Preset { index }
                &&& index < names.len()
                &&& names[index as int] == build
                &&& forall|j: int| 0 <= j < index ==> #[trigger] names[j] != build
            },
            Err(e) => {
                &&& e == (ErrorModel::UnknownBuild { build, names })
                &&& forall|j: int| 0 <= j < names.len() ==> #[trigger] names[j] != build
            },
        },
{
    if names.contains(build) {
        lemma_first_index_is_first(names, build);
    } else {
        assert forall|j: int| 0 <= j < names.len() implies #[trigger] names[j] != build by {
            if names[j] == build {
                assert(names.contains(build));
            }
        }
    }
}

proof fn lemma_first_index_is_first(names: Seq<Seq<char>>, name: Seq<char>)
    requires
        names.contains(name),
    ensures
        first_index(names, name) < names.len(),
        names[first_index(names, name) as int] == name,
        forall|j: int| 0 <= j < first_index(names, name) ==> #[trigger] names[j] != name,
    decreases names.len(),
{
    let k = choose|k: int| 0 <= k < names.len() && names[k] == name;
    if names[0] != name {
        let rest = names.drop_first();
        assert(rest[k - 1] == name);
        lemma_first_index_is_first(rest, name);
        assert forall|j: int| 0 <= j < first_index(names, name) implies #[trigger] names[j]
            != name by {
            if j > 0 {
                assert(names[j] == rest[j - 1]);
            }
        }
    }
}

/// A further preset build behind the others is chosen exactly where its name is wanted
/// and none of the others has it.
pub proof fn law_later_presets_come_last(
    build: Seq<char>,
    friend: u32,
    names: Seq<Seq<char>>,
    more: Seq<char>,
)
    ensures
        names.contains(build) ==> chosen_deck(build, None, friend, names.push(more)) == chosen_deck(
            build,
            None,
            friend,
            names,
        ),
        !names.contains(more) ==> chosen_deck(more, None, friend, names.push(more)) == Ok::<
            ChoiceModel,
            ErrorModel,
        >(ChoiceModel::Preset { index: names.len() }),
{
    let all = names.push(more);
    if names.contains(build) {
        lemma_first_index_is_first(names, build);
        let k = first_index(names, build) as int;
        assert(all[k] == build);
        assert forall|j: int| 0 <= j < k implies #[trigger] all[j] != build by {
            assert(all[j] == names[j]);
        }
        lemma_first_index(all, build, k);
    }
    if !names.contains(more) {
        let k = names.len() as int;
        assert(all[k] == more);
        assert forall|j: int| 0 <= j < k implies #[trigger] all[j] != more by {
            assert(all[j] == names[j]);
        }
        lemma_first_index(all, more, k);
    }
}

/// A custom deck is the one that its text denotes, and what is wrong with the text is
/// wrong with the run.
pub proof fn law_custom_deck_is_used(
    build: Seq<char>,
    text: Seq<char>,
    friend: u32,
    names: Seq<Seq<char>>,
)
    ensures
        match deck_of(text, friend) {
            Ok(deck) => chosen_deck(build, Some(text), friend, names) == Ok::<
                ChoiceModel,
                ErrorModel,
            >(ChoiceModel::Custom { deck }),
            Err(e) => chosen_deck(build, Some(text), friend, names) == Err::<
                ChoiceModel,
                ErrorModel,
            >(e),
        },
{
}

/// A deck is read exactly where each entry of its text denotes a card id and there are
/// five or six. It then holds six cards: each entry denotes the one in its place, and
/// the friend card is the sixth where there are five entries. Otherwise the first entry
/// that denotes none is at fault, and where all denote one, their number and the text
/// are reported.
pub proof fn law_deck_holds_what_the_entries_denote(s: Seq<char>, friend: u32)
    ensures
        ({
            let items = entries(split(s, ','));
            match deck_of(s, friend) {
                Ok(deck) => {
                    &&& deck.len() == 6
                    &&& items.len() == 5 || items.len() == 6
                    &&& items.len() == 5 ==> deck[5] == friend
                    &&& forall|i: int|
                        0 <= i < items.len() ==> denotes(#[trigger] items[i], deck[i])
                },
                Err(ErrorModel::DeckEntry { fault }) => exists|i: int|
                    #![trigger items[i]]
                    0 <= i < items.len() && read_int(items[i], 0, 0xFFFF_FFFF) == Err::<
                        int,
                        IntFault,
                    >(fault) && forall|j: int|
                        0 <= j < i ==> read_int(#[trigger] items[j], 0, 0xFFFF_FFFF) is Ok,
                Err(ErrorModel::DeckSize { found, text }) => {
                    &&& found == items.len()
                    &&& found != 5 && found != 6
                    &&& text == s
                    &&& forall|i: int|
                        0 <= i < items.len() ==> read_int(
                            #[trigger] items[i],
                            0,
                            0xFFFF_FFFF,
                        ) is Ok
                },
                Err(_) => false,
            }
        }),
{
    let items = entries(split(s, ','));
    lemma_card_ids(items);
    lemma_card_fault(items);
    if card_ids(items) is Ok {
        let ids = card_ids(items)->Ok_0;
        assert forall|i: int| 0 <= i < items.len() implies read_int(
            #[trigger] items[i],
            0,
            0xFFFF_FFFF,
        ) is Ok by {
            assert(denotes(items[i], ids[i]));
        }
        if ids.len() == 5 {
            let deck = ids.push(friend);
            assert forall|i: int| 0 <= i < items.len() implies denotes(
                #[trigger] items[i],
                deck[i],
            ) by {
                assert(denotes(items[i], ids[i]));
            }
        }
    }
}

/// Each piece of a text is an entry, without the white space around it, unless it is
/// blank; and the entries of a text are those of its pieces, in order.
pub proof fn law_entries_are_the_trimmed_pieces(a: Seq<Seq<char>>, piece: Seq<char>, b: Seq<Seq<char>>)
    ensures
        entries(a + b) == entries(a) + entries(b),
        entries(seq![piece]) == (if is_blank(piece) {
            Seq::<Seq<char>>::empty()
        } else {
            seq![trim(piece)]
        }),
        entries(Seq::empty()) == Seq::<Seq<char>>::empty(),
{
    lemma_entries_append(a, b);
    let one = seq![piece];
    assert(one.drop_last() == Seq::<Seq<char>>::empty());
    assert(entries(one.drop_last()) == Seq::<Seq<char>>::empty());
    if is_blank(piece) {
        lemma_trim_blank(piece);
    } else {
        law_trim_removes_only_white_space(piece);
        assert(entries(one) =~= seq![trim(piece)]);
    }
}

/// The model of a choice holds the deck or the index as it is.
pub proof fn law_choice_model_is_faithful(choice: DeckChoice)
    ensures
        choice matches DeckChoice::Custom { deck } ==> choice@ == (ChoiceModel::Custom {
            deck: deck@,
        }),
        choice matches DeckChoice::Preset { index } ==> choice@ == (ChoiceModel::Preset {
            index: index as nat,
        }),
{
}

/// Texts without commas and white space around them, put one after the other with a
/// comma and a blank between them, have themselves as entries.
proof fn lemma_list_entries(parts: Seq<Seq<char>>)
    requires
        forall|i: int|
            0 <= i < parts.len() ==> !(#[trigger] parts[i]).contains(',') && parts[i].len() > 0
                && trim(parts[i]) == parts[i],
    ensures
        entries(split(join(parts, seq![',', ' ']), ',')) == parts,
    decreases parts.len(),
{
    let sep = seq![',', ' '];
    let all = join(parts, sep);
    if parts.len() == 0 {
        assert(is_blank(all));
        lemma_blank_has_no_entries(all);
        assert(parts =~= Seq::empty());
    } else {
        let last = parts[parts.len() - 1];
        law_split_undoes_join(seq![last], ',');
        assert(join(seq![last], seq![',']) == last);
        law_entries_are_the_trimmed_pieces(Seq::empty(), last, Seq::empty());
        if is_blank(last) {
            lemma_trim_blank(last);
        }
        assert(entries(split(last, ',')) =~= seq![last]);
        if parts.len() == 1 {
            assert(all == last);
            assert(parts =~= seq![last]);
        } else {
            let front = parts.drop_last();
            assert forall|i: int| 0 <= i < front.len() implies !(#[trigger] front[i]).contains(',')
                && front[i].len() > 0 && trim(front[i]) == front[i] by {
                assert(front[i] == parts[i]);
            }
            lemma_list_entries(front);
            let start = join(front, sep);
            let blank = seq![' '];
            let none = Seq::<char>::empty();
            assert(all =~= start + seq![','] + (blank + last + none));
            lemma_padded_piece(blank, last, none);
            law_split_at_separator(start, ',', blank + last + none);
            lemma_entries_append(split(start, ','), split(blank + last + none, ','));
            assert(front + seq![last] =~= parts);
        }
    }
}

/// Six card ids written out with a comma and a blank between them are read back as
/// themselves; of five, `friend` becomes the sixth.
pub proof fn law_spaced_deck_is_read_back(cards: Seq<u32>, friend: u32)
    requires
        cards.len() == 5 || cards.len() == 6,
    ensures
        deck_of(join(card_texts(cards), seq![',', ' ']), friend) == Ok::<Seq<u32>, ErrorModel>(
            if cards.len() == 5 {
                cards.push(friend)
            } else {
                cards
            },
        ),
{
    let items = card_texts(cards);
    assert forall|i: int| 0 <= i < items.len() implies !(#[trigger] items[i]).contains(',')
        && items[i].len() > 0 && trim(items[i]) == items[i] by {
        let text = decimal(cards[i] as nat);
        lemma_decimal(cards[i] as nat);
        assert(items[i] == text);
        assert forall|j: int| 0 <= j < text.len() implies text[j] != ',' by {
            assert(is_digit(text[j]));
        }
        assert(is_digit(text[0]) && is_digit(text[text.len() - 1]));
    }
    lemma_list_entries(items);
    lemma_card_texts(cards);
}

} // verus!
