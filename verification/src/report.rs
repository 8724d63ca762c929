//! The lines that the probe prints: a tag and `key=value` fields, one blank apart.

use vstd::prelude::*;
use vstd::string::*;

#[allow(unused_imports)]
use crate::arguments::{length_before, lemma_length_before};
use crate::command::{RootOpts, WholeOpts};
#[allow(unused_imports)]
use crate::command::{RootModel, WholeModel};
#[allow(unused_imports)]
use crate::deck::{card_texts, deck_of, law_spaced_deck_is_read_back};
#[allow(unused_imports)]
use crate::error::ErrorModel;
#[allow(unused_imports)]
use crate::numeral::{law_decimal_stands_for_its_number, lemma_decimal, stands_for};
use crate::search::SearchFigures;
use crate::text::{push_decimal, push_signed};
#[allow(unused_imports)]
use crate::text::{decimal, join, law_split_undoes_join, signed_decimal, split};

verus! {

/// A field of a line.
pub open spec fn field_text(field: (Seq<char>, Seq<char>)) -> Seq<char> {
    field.0.push('=') + field.1
}

/// The words of a line: its tag and its fields.
pub open spec fn line_words(tag: Seq<char>, fields: Seq<(Seq<char>, Seq<char>)>) -> Seq<Seq<char>> {
    Seq::new(
        fields.len() + 1,
        |i: int|
            if i == 0 {
                tag
            } else {
                field_text(fields[i - 1])
            },
    )
}

/// A line of a tag and fields.
pub open spec fn line_of(tag: Seq<char>, fields: Seq<(Seq<char>, Seq<char>)>) -> Seq<char> {
    join(line_words(tag, fields), seq![' '])
}

/// A line under construction.
struct Line {
    text: String,
    tag: Ghost<Seq<char>>,
    fields: Ghost<Seq<(Seq<char>, Seq<char>)>>,
}

impl Line {
    spec fn wf(self) -> bool {
        self.text@ == line_of(self.tag@, self.fields@)
    }

    /// A line without fields.
    fn new(tag: &str) -> (r: Line)
        ensures
            r.wf(),
            r.tag@ == tag@,
            r.fields@ == Seq::<(Seq<char>, Seq<char>)>::empty(),
    {
        assert(line_words(tag@, Seq::empty()) == seq![tag@]);
        Line { text: tag.to_owned(), tag: Ghost(tag@), fields: Ghost(Seq::empty()) }
    }

    /// Adds a field.
    fn field(&mut self, key: &str, value: &str)
        requires
            old(self).wf(),
        ensures
            final(self).wf(),
            final(self).tag@ == old(self).tag@,
            final(self).fields@ == old(self).fields@.push((key@, value@)),
    {
        let ghost before = self.fields@;
        let ghost now = before.push((key@, value@));
        proof {
            reveal_strlit(" ");
            reveal_strlit("=");
            assert(" "@ =~= seq![' ']);
            assert("="@ =~= seq!['=']);
        }
        self.text.append(" ");
        self.text.append(key);
        self.text.append("=");
        self.text.append(value);
        proof {
            let words = line_words(self.tag@, now);
            assert(words.drop_last() =~= line_words(self.tag@, before));
            assert(words.last() == field_text((key@, value@)));
            assert(self.text@ =~= line_of(self.tag@, before) + seq![' '] + words.last());
        }
        self.fields = Ghost(now);
    }
}

/// `n` in decimal notation.
fn decimal_text(n: u64) -> (r: String)
    ensures
        r@ == decimal(n as nat),
{
    let mut out = String::new();
    push_decimal(&mut out, n);
    out
}

/// `i` in decimal notation.
fn signed_text(i: i64) -> (r: String)
    ensures
        r@ == signed_decimal(i as int),
{
    let mut out = String::new();
    push_signed(&mut out, i);
    out
}

/// A deck as a bracketed list.
pub open spec fn deck_wording(deck: Seq<u32>) -> Seq<char> {
    "["@ + join(card_texts(deck), ", "@) + "]"@
}

/// A deck as a bracketed list.
fn deck_text(deck: &[u32; 6]) -> (r: String)
    ensures
        r@ == deck_wording(deck@),
{
    let ghost all = card_texts(deck@);
    let mut out = String::new();
    out.append("[");
    let mut i: usize = 0;
    while i < 6
        invariant
            i <= 6,
            all == card_texts(deck@),
            out@ == "["@ + join(all.take(i as int), ", "@),
        decreases 6 - i,
    {
        proof {
            let longer = all.take(i as int + 1);
            assert(longer.drop_last() == all.take(i as int));
            assert(longer.last() == decimal(deck@[i as int] as nat));
        }
        if i > 0 {
            out.append(", ");
        }
        push_decimal(&mut out, deck[i] as u64);
        i = i + 1;
    }
    assert(all.take(6) == all);
    out.append("]");
    out
}

/// The fields of the line that opens a `root` run.
pub open spec fn info_fields(opts: RootModel, search_n: nat, deck: Seq<u32>) -> Seq<
    (Seq<char>, Seq<char>),
> {
    seq![
        ("label"@, opts.label),
        ("uma"@, decimal(opts.uma as nat)),
        ("turn"@, signed_decimal(opts.turn as int)),
        ("search_n"@, decimal(search_n)),
        ("rounds"@, decimal(opts.rounds as nat)),
        ("seed"@, decimal(opts.seed as nat)),
        ("search_seed"@, decimal(opts.search_seed as nat)),
        ("deck"@, deck_wording(deck)),
    ]
}

/// The line that opens a `root` run.
pub fn root_info_line(opts: &RootOpts, search_n: usize, deck: &[u32; 6]) -> (r: String)
    ensures
        r@ == line_of("INFO"@, info_fields(opts@, search_n as nat, deck@)),
{
    let mut line = Line::new("INFO");
    line.field("label", opts.label.as_str());
    line.field("uma", decimal_text(opts.uma as u64).as_str());
    line.field("turn", signed_text(opts.turn as i64).as_str());
    line.field("search_n", decimal_text(search_n as u64).as_str());
    line.field("rounds", decimal_text(opts.rounds as u64).as_str());
    line.field("seed", decimal_text(opts.seed).as_str());
    line.field("search_seed", decimal_text(opts.search_seed).as_str());
    line.field("deck", deck_text(deck).as_str());
    assert(line.fields@ =~= info_fields(opts@, search_n as nat, deck@));
    line.text
}

/// The root that was reached, and how it is searched.
#[derive(Debug)]
pub struct RootPosition {
    pub turn: i32,
    pub candidates: usize,
    /// The score of the root, as text.
    pub score: String,
    /// The number of games that a search plays out at a time, as text.
    pub group_size: String,
    /// The spread that a search expects, as text.
    pub expected_stdev: String,
}

/// The line about the root that was reached.
pub open spec fn position_wording(at: RootPosition) -> Seq<char> {
    "INFO  根局面: turn="@ + signed_decimal(at.turn as int) + " stage=Train 候选 "@ + decimal(
        at.candidates as nat,
    ) + " 个 score="@ + at.score@ + " | group_size="@ + at.group_size@ + " expected_stdev="@
        + at.expected_stdev@
}

/// The line about the root that was reached.
pub fn root_position_line(at: &RootPosition) -> (r: String)
    ensures
        r@ == position_wording(*at),
{
    let mut out = String::new();
    out.append("INFO  根局面: turn=");
    push_signed(&mut out, at.turn as i64);
    out.append(" stage=Train 候选 ");
    push_decimal(&mut out, at.candidates as u64);
    out.append(" 个 score=");
    out.append(at.score.as_str());
    out.append(" | group_size=");
    out.append(at.group_size.as_str());
    out.append(" expected_stdev=");
    out.append(at.expected_stdev.as_str());
    out
}

/// The fields of the line about one search. Rounds are counted from one.
pub open spec fn round_fields(
    opts: RootModel,
    root: RootPosition,
    round: nat,
    figures: SearchFigures,
) -> Seq<(Seq<char>, Seq<char>)> {
    seq![
        ("label"@, opts.label),
        ("turn"@, signed_decimal(opts.turn as int)),
        ("round"@, decimal(round + 1)),
        ("candidates"@, decimal(root.candidates as nat)),
        ("searched"@, decimal(figures.searched as nat)),
        ("best"@, decimal(figures.best as nat)),
        ("best_mean"@, figures.best_mean@),
        ("root_score"@, root.score@),
        ("elapsed_ms"@, figures.elapsed_ms@),
    ]
}

/// The line about the search of `root` in the round with index `round`.
pub fn root_round_line(
    opts: &RootOpts,
    root: &RootPosition,
    round: usize,
    figures: &SearchFigures,
) -> (r: String)
    requires
        round < opts.rounds,
    ensures
        r@ == line_of("ROOT"@, round_fields(opts@, *root, round as nat, *figures)),
{
    let mut line = Line::new("ROOT");
    line.field("label", opts.label.as_str());
    line.field("turn", signed_text(opts.turn as i64).as_str());
    line.field("round", decimal_text((round + 1) as u64).as_str());
    line.field("candidates", decimal_text(root.candidates as u64).as_str());
    line.field("searched", decimal_text(figures.searched).as_str());
    line.field("best", decimal_text(figures.best as u64).as_str());
    line.field("best_mean", figures.best_mean.as_str());
    line.field("root_score", root.score.as_str());
    line.field("elapsed_ms", figures.elapsed_ms.as_str());
    assert(line.fields@ =~= round_fields(opts@, *root, round as nat, *figures));
    line.text
}

/// Summary figures of a series of times, as text.
#[derive(Debug)]
pub struct TimeSummary {
    pub mean: String,
    pub median: String,
    pub min: String,
    pub max: String,
    pub std: String,
}

/// Summary figures of a series of scores, as text.
#[derive(Debug)]
pub struct ScoreSummary {
    pub mean: String,
    pub min: String,
    pub max: String,
}

/// The fields of the line about all rounds together.
pub open spec fn median_fields(opts: RootModel, times: TimeSummary) -> Seq<(Seq<char>, Seq<char>)> {
    seq![
        ("label"@, opts.label),
        ("turn"@, signed_decimal(opts.turn as int)),
        ("rounds"@, decimal(opts.rounds as nat)),
        ("median_ms"@, times.median@),
        ("mean_ms"@, times.mean@),
        ("min_ms"@, times.min@),
        ("max_ms"@, times.max@),
        ("std_ms"@, times.std@),
    ]
}

/// The line about all rounds together.
pub fn root_median_line(opts: &RootOpts, times: &TimeSummary) -> (r: String)
    ensures
        r@ == line_of("ROOT_MEDIAN"@, median_fields(opts@, *times)),
{
    let mut line = Line::new("ROOT_MEDIAN");
    line.field("label", opts.label.as_str());
    line.field("turn", signed_text(opts.turn as i64).as_str());
    line.field("rounds", decimal_text(opts.rounds as u64).as_str());
    line.field("median_ms", times.median.as_str());
    line.field("mean_ms", times.mean.as_str());
    line.field("min_ms", times.min.as_str());
    line.field("max_ms", times.max.as_str());
    line.field("std_ms", times.std.as_str());
    assert(line.fields@ =~= median_fields(opts@, *times));
    line.text
}

/// The fields of the line about all games of a `whole` run.
pub open spec fn whole_fields(opts: WholeModel, times: TimeSummary, scores: ScoreSummary) -> Seq<
    (Seq<char>, Seq<char>),
> {
    seq![
        ("label"@, opts.label),
        ("runs"@, decimal(opts.runs as nat)),
        ("mean_ms"@, times.mean@),
        ("median_ms"@, times.median@),
        ("min_ms"@, times.min@),
        ("max_ms"@, times.max@),
        ("std_ms"@, times.std@),
        ("score_mean"@, scores.mean@),
        ("score_min"@, scores.min@),
        ("score_max"@, scores.max@),
    ]
}

/// The line about all games of a `whole` run.
pub fn whole_line(opts: &WholeOpts, times: &TimeSummary, scores: &ScoreSummary) -> (r: String)
    ensures
        r@ == line_of("WHOLE"@, whole_fields(opts@, *times, *scores)),
{
    let mut line = Line::new("WHOLE");
    line.field("label", opts.label.as_str());
    line.field("runs", decimal_text(opts.runs as u64).as_str());
    line.field("mean_ms", times.mean.as_str());
    line.field("median_ms", times.median.as_str());
    line.field("min_ms", times.min.as_str());
    line.field("max_ms", times.max.as_str());
    line.field("std_ms", times.std.as_str());
    line.field("score_mean", scores.mean.as_str());
    line.field("score_min", scores.min.as_str());
    line.field("score_max", scores.max.as_str());
    assert(line.fields@ =~= whole_fields(opts@, *times, *scores));
    line.text
}

/// Whether `key` is that of a time.
pub open spec fn is_time_key(key: Seq<char>) -> bool {
    ||| key == "elapsed_ms"@
    ||| key == "mean_ms"@
    ||| key == "median_ms"@
    ||| key == "min_ms"@
    ||| key == "max_ms"@
    ||| key == "std_ms"@
}

/// Whether `c` occurs neither in `tag` nor in any key or value of `fields`.
pub open spec fn free_of(tag: Seq<char>, fields: Seq<(Seq<char>, Seq<char>)>, c: char) -> bool {
    &&& !tag.contains(c)
    &&& forall|i: int|
        0 <= i < fields.len() ==> !(#[trigger] fields[i]).0.contains(c) && !fields[i].1.contains(c)
}

/// A character that occurs in no part of a line and is no equals sign occurs in no
/// word of it.
proof fn lemma_words_free_of(tag: Seq<char>, fields: Seq<(Seq<char>, Seq<char>)>, c: char)
    requires
        free_of(tag, fields, c),
        c != '=',
    ensures
        forall|i: int| 0 <= i <= fields.len() ==> !(#[trigger] line_words(tag, fields)[i]).contains(
            c,
        ),
{
    let words = line_words(tag, fields);
    assert forall|i: int| 0 <= i <= fields.len() implies !(#[trigger] words[i]).contains(c) by {
        if i > 0 {
            let field = fields[i - 1];
            assert forall|j: int| 0 <= j < words[i].len() implies words[i][j] != c by {
                if j < field.0.len() {
                    assert(words[i][j] == field.0[j]);
                } else if j > field.0.len() {
                    assert(words[i][j] == field.1[j - field.0.len() - 1]);
                }
            }
        }
    }
}

/// A line without blanks in its tag, keys and values falls apart at its blanks into
/// its tag and its fields, and a field whose key has no equals sign falls apart at
/// its first equals sign into its key and its value.
pub proof fn law_line_falls_apart(tag: Seq<char>, fields: Seq<(Seq<char>, Seq<char>)>)
    requires
        free_of(tag, fields, ' '),
    ensures
        split(line_of(tag, fields), ' ') == line_words(tag, fields),
        forall|i: int|
            #![trigger fields[i]]
            0 <= i < fields.len() && !fields[i].0.contains('=') ==> {
                let word = line_words(tag, fields)[i + 1];
                let n = length_before(word, '=') as int;
                &&& n < word.len()
                &&& word.take(n) == fields[i].0
                &&& word.skip(n + 1) == fields[i].1
            },
{
    let words = line_words(tag, fields);
    lemma_words_free_of(tag, fields, ' ');
    law_split_undoes_join(words, ' ');
    assert forall|i: int|
        #![trigger fields[i]]
        0 <= i < fields.len() && !fields[i].0.contains('=') implies {
        let word = words[i + 1];
        let n = length_before(word, '=') as int;
        &&& n < word.len()
        &&& word.take(n) == fields[i].0
        &&& word.skip(n + 1) == fields[i].1
    } by {
        let word = words[i + 1];
        assert(word == field_text(fields[i]));
        lemma_length_before(fields[i].0, '=', fields[i].1);
        assert(word.take(fields[i].0.len() as int) =~= fields[i].0);
        assert(word.skip(fields[i].0.len() as int + 1) =~= fields[i].1);
    }
}

/// A character that occurs in no part of a joined text, nor in what stands between
/// the parts, does not occur in it.
proof fn lemma_join_free_of(parts: Seq<Seq<char>>, sep: Seq<char>, c: char)
    requires
        forall|i: int| 0 <= i < parts.len() ==> !(#[trigger] parts[i]).contains(c),
        !sep.contains(c),
    ensures
        !join(parts, sep).contains(c),
    decreases parts.len(),
{
    if parts.len() > 1 {
        let front = parts.drop_last();
        assert forall|i: int| 0 <= i < front.len() implies !(#[trigger] front[i]).contains(c) by {
            assert(front[i] == parts[i]);
        }
        lemma_join_free_of(front, sep, c);
        let start = join(front, sep);
        let last = parts[parts.len() - 1];
        let all = join(parts, sep);
        assert(all == start + sep + last);
        assert forall|j: int| 0 <= j < all.len() implies all[j] != c by {
            if j < start.len() {
                assert(all[j] == start[j]);
            } else if j < start.len() + sep.len() {
                assert(all[j] == sep[j - start.len()]);
            } else {
                assert(all[j] == last[j - start.len() - sep.len()]);
            }
        }
    }
}

/// A line is one line: it holds no line break that its tag, keys and values do not.
pub proof fn law_line_is_one_line(tag: Seq<char>, fields: Seq<(Seq<char>, Seq<char>)>)
    requires
        free_of(tag, fields, '\n'),
    ensures
        !line_of(tag, fields).contains('\n'),
{
    lemma_words_free_of(tag, fields, '\n');
    assert forall|j: int| 0 <= j < 1 implies seq![' '][j] != '\n' by {}
    lemma_join_free_of(line_words(tag, fields), seq![' '], '\n');
}

/// Decimal notation holds neither blanks nor line breaks.
proof fn lemma_decimal_is_plain(i: int)
    ensures
        !signed_decimal(i).contains(' '),
        !signed_decimal(i).contains('\n'),
        i >= 0 ==> signed_decimal(i) == decimal(i as nat),
{
    let n: nat = if i < 0 { (-i) as nat } else { i as nat };
    lemma_decimal(n);
    let s = signed_decimal(i);
    assert forall|j: int| 0 <= j < s.len() implies s[j] != ' ' && s[j] != '\n' by {
        if i < 0 && j > 0 {
            assert(s[j] == decimal(n)[j - 1]);
        } else if i >= 0 {
            assert(s[j] == decimal(n)[j]);
        }
    }
}

/// The line about one search falls apart at its blanks into its tag and its fields,
/// and is one line, where the label and the figures given as text hold no blank and
/// no line break.
pub proof fn law_round_line_falls_apart(
    opts: RootModel,
    root: RootPosition,
    round: nat,
    figures: SearchFigures,
)
    requires
        !opts.label.contains(' ') && !opts.label.contains('\n'),
        !figures.best_mean@.contains(' ') && !figures.best_mean@.contains('\n'),
        !figures.elapsed_ms@.contains(' ') && !figures.elapsed_ms@.contains('\n'),
        !root.score@.contains(' ') && !root.score@.contains('\n'),
    ensures
        split(line_of("ROOT"@, round_fields(opts, root, round, figures)), ' ') == line_words(
            "ROOT"@,
            round_fields(opts, root, round, figures),
        ),
        !line_of("ROOT"@, round_fields(opts, root, round, figures)).contains('\n'),
{
    reveal_strlit("ROOT");
    reveal_strlit("label");
    reveal_strlit("turn");
    reveal_strlit("round");
    reveal_strlit("candidates");
    reveal_strlit("searched");
    reveal_strlit("best");
    reveal_strlit("best_mean");
    reveal_strlit("root_score");
    reveal_strlit("elapsed_ms");
    lemma_decimal_is_plain(opts.turn as int);
    lemma_decimal_is_plain((round + 1) as int);
    lemma_decimal_is_plain(root.candidates as int);
    lemma_decimal_is_plain(figures.searched as int);
    lemma_decimal_is_plain(figures.best as int);
    let fields = round_fields(opts, root, round, figures);
    assert(free_of("ROOT"@, fields, ' '));
    assert(free_of("ROOT"@, fields, '\n'));
    law_line_falls_apart("ROOT"@, fields);
    law_line_is_one_line("ROOT"@, fields);
}

/// The line about all rounds together falls apart at its blanks into its tag and its
/// fields, and is one line, where the label and the figures given as text hold no
/// blank and no line break.
pub proof fn law_median_line_falls_apart(opts: RootModel, times: TimeSummary)
    requires
        !opts.label.contains(' ') && !opts.label.contains('\n'),
        !times.median@.contains(' ') && !times.median@.contains('\n'),
        !times.mean@.contains(' ') && !times.mean@.contains('\n'),
        !times.min@.contains(' ') && !times.min@.contains('\n'),
        !times.max@.contains(' ') && !times.max@.contains('\n'),
        !times.std@.contains(' ') && !times.std@.contains('\n'),
    ensures
        split(line_of("ROOT_MEDIAN"@, median_fields(opts, times)), ' ') == line_words(
            "ROOT_MEDIAN"@,
            median_fields(opts, times),
        ),
        !line_of("ROOT_MEDIAN"@, median_fields(opts, times)).contains('\n'),
{
    reveal_strlit("ROOT_MEDIAN");
    reveal_strlit("label");
    reveal_strlit("turn");
    reveal_strlit("rounds");
    reveal_strlit("median_ms");
    reveal_strlit("mean_ms");
    reveal_strlit("min_ms");
    reveal_strlit("max_ms");
    reveal_strlit("std_ms");
    lemma_decimal_is_plain(opts.turn as int);
    lemma_decimal_is_plain(opts.rounds as int);
    let fields = median_fields(opts, times);
    assert(free_of("ROOT_MEDIAN"@, fields, ' '));
    assert(free_of("ROOT_MEDIAN"@, fields, '\n'));
    law_line_falls_apart("ROOT_MEDIAN"@, fields);
    law_line_is_one_line("ROOT_MEDIAN"@, fields);
}

/// The line about all games falls apart at its blanks into its tag and its fields,
/// and is one line, where the label and the figures given as text hold no blank and
/// no line break.
pub proof fn law_whole_line_falls_apart(opts: WholeModel, times: TimeSummary, scores: ScoreSummary)
    requires
        !opts.label.contains(' ') && !opts.label.contains('\n'),
        !times.median@.contains(' ') && !times.median@.contains('\n'),
        !times.mean@.contains(' ') && !times.mean@.contains('\n'),
        !times.min@.contains(' ') && !times.min@.contains('\n'),
        !times.max@.contains(' ') && !times.max@.contains('\n'),
        !times.std@.contains(' ') && !times.std@.contains('\n'),
        !scores.mean@.contains(' ') && !scores.mean@.contains('\n'),
        !scores.min@.contains(' ') && !scores.min@.contains('\n'),
        !scores.max@.contains(' ') && !scores.max@.contains('\n'),
    ensures
        split(line_of("WHOLE"@, whole_fields(opts, times, scores)), ' ') == line_words(
            "WHOLE"@,
            whole_fields(opts, times, scores),
        ),
        !line_of("WHOLE"@, whole_fields(opts, times, scores)).contains('\n'),
{
    reveal_strlit("WHOLE");
    reveal_strlit("label");
    reveal_strlit("runs");
    reveal_strlit("mean_ms");
    reveal_strlit("median_ms");
    reveal_strlit("min_ms");
    reveal_strlit("max_ms");
    reveal_strlit("std_ms");
    reveal_strlit("score_mean");
    reveal_strlit("score_min");
    reveal_strlit("score_max");
    lemma_decimal_is_plain(opts.runs as int);
    let fields = whole_fields(opts, times, scores);
    assert(free_of("WHOLE"@, fields, ' '));
    assert(free_of("WHOLE"@, fields, '\n'));
    law_line_falls_apart("WHOLE"@, fields);
    law_line_is_one_line("WHOLE"@, fields);
}

/// A line without fields is its tag, and a further field comes behind the others: a
/// blank, the key, an equals sign and the value.
pub proof fn law_line_grows_by_its_fields(
    tag: Seq<char>,
    fields: Seq<(Seq<char>, Seq<char>)>,
    key: Seq<char>,
    value: Seq<char>,
)
    ensures
        line_of(tag, Seq::empty()) == tag,
        line_of(tag, fields.push((key, value))) == line_of(tag, fields) + seq![' '] + key + seq!['=']
            + value,
{
    assert(line_words(tag, Seq::empty()) =~= seq![tag]);
    let longer = line_words(tag, fields.push((key, value)));
    assert(longer.drop_last() =~= line_words(tag, fields));
    assert(longer.last() =~= key + seq!['='] + value);
    assert(line_of(tag, fields.push((key, value))) =~= line_of(tag, fields) + seq![' '] + key + seq![
        '=',
    ] + value);
}

/// The value that a word of a line gives the field `key`.
pub open spec fn value_in(word: Seq<char>, key: Seq<char>) -> Option<Seq<char>> {
    let n = key.len() as int;
    if n < word.len() && word.take(n) == key && word[n] == '=' {
        Some(word.skip(n + 1))
    } else {
        None
    }
}

/// Whether a word of a line gives the field `key` this text.
pub open spec fn tells(word: Seq<char>, key: Seq<char>, text: Seq<char>) -> bool {
    value_in(word, key) == Some(text)
}

/// Whether a word of a line gives the field `key` this number.
pub open spec fn tells_number(word: Seq<char>, key: Seq<char>, number: int) -> bool {
    value_in(word, key) matches Some(text) && stands_for(text, number)
}

/// A field tells its value.
proof fn lemma_field_tells(key: Seq<char>, value: Seq<char>)
    ensures
        tells(field_text((key, value)), key, value),
{
    let word = field_text((key, value));
    assert(word.take(key.len() as int) =~= key);
    assert(word.skip(key.len() as int + 1) =~= value);
}

/// A field with a number in decimal notation tells that number.
proof fn lemma_field_tells_number(key: Seq<char>, number: int)
    requires
        -0x8000_0000_0000_0000 <= number <= 0xFFFF_FFFF_FFFF_FFFF,
    ensures
        tells_number(field_text((key, signed_decimal(number))), key, number),
        number >= 0 ==> signed_decimal(number) == decimal(number as nat),
{
    lemma_field_tells(key, signed_decimal(number));
    law_decimal_stands_for_its_number(number, number);
}

/// The fields of the line about a search: the label, the target turn of the run, the
/// number of the round counted from one, how many candidates the root has, and the
/// figures of the search.
pub proof fn law_round_fields_tell_the_search(
    opts: RootModel,
    root: RootPosition,
    round: nat,
    figures: SearchFigures,
)
    requires
        round < opts.rounds,
    ensures
        ({
            let words = line_words("ROOT"@, round_fields(opts, root, round, figures));
            &&& words.len() == 10
            &&& words[0] == "ROOT"@
            &&& tells(words[1], "label"@, opts.label)
            &&& tells_number(words[2], "turn"@, opts.turn as int)
            &&& tells_number(words[3], "round"@, round as int + 1)
            &&& tells_number(words[4], "candidates"@, root.candidates as int)
            &&& tells_number(words[5], "searched"@, figures.searched as int)
            &&& tells_number(words[6], "best"@, figures.best as int)
            &&& tells(words[7], "best_mean"@, figures.best_mean@)
            &&& tells(words[8], "root_score"@, root.score@)
            &&& tells(words[9], "elapsed_ms"@, figures.elapsed_ms@)
        }),
{
    lemma_field_tells("label"@, opts.label);
    lemma_field_tells_number("turn"@, opts.turn as int);
    lemma_field_tells_number("round"@, round as int + 1);
    lemma_field_tells_number("candidates"@, root.candidates as int);
    lemma_field_tells_number("searched"@, figures.searched as int);
    lemma_field_tells_number("best"@, figures.best as int);
    lemma_field_tells("best_mean"@, figures.best_mean@);
    lemma_field_tells("root_score"@, root.score@);
    lemma_field_tells("elapsed_ms"@, figures.elapsed_ms@);
}

/// The line about a search, taken apart at its blanks: its third word gives the field
/// `turn` a text that is read as the target turn of the run, and the other words the
/// other fields, where the label and the figures given as text hold no blank.
pub proof fn law_round_line_is_read_back(
    opts: RootModel,
    root: RootPosition,
    round: nat,
    figures: SearchFigures,
)
    requires
        round < opts.rounds,
        !opts.label.contains(' ') && !opts.label.contains('\n'),
        !figures.best_mean@.contains(' ') && !figures.best_mean@.contains('\n'),
        !figures.elapsed_ms@.contains(' ') && !figures.elapsed_ms@.contains('\n'),
        !root.score@.contains(' ') && !root.score@.contains('\n'),
    ensures
        ({
            let words = split(line_of("ROOT"@, round_fields(opts, root, round, figures)), ' ');
            &&& words.len() == 10
            &&& words[0] == "ROOT"@
            &&& tells(words[1], "label"@, opts.label)
            &&& tells_number(words[2], "turn"@, opts.turn as int)
            &&& tells_number(words[3], "round"@, round as int + 1)
            &&& tells_number(words[4], "candidates"@, root.candidates as int)
            &&& tells_number(words[5], "searched"@, figures.searched as int)
            &&& tells_number(words[6], "best"@, figures.best as int)
            &&& tells(words[7], "best_mean"@, figures.best_mean@)
            &&& tells(words[8], "root_score"@, root.score@)
            &&& tells(words[9], "elapsed_ms"@, figures.elapsed_ms@)
        }),
{
    law_round_line_falls_apart(opts, root, round, figures);
    law_round_fields_tell_the_search(opts, root, round, figures);
}

/// Lines about searches that are the same tell of the same label, target turn, round,
/// number of candidates and figures: runs to different turns show different lines.
pub proof fn law_equal_round_lines_tell_the_same(
    opts: RootModel,
    root: RootPosition,
    round: nat,
    figures: SearchFigures,
    other_opts: RootModel,
    other_root: RootPosition,
    other_round: nat,
    other_figures: SearchFigures,
)
    requires
        round < opts.rounds,
        other_round < other_opts.rounds,
        !opts.label.contains(' ') && !opts.label.contains('\n'),
        !figures.best_mean@.contains(' ') && !figures.best_mean@.contains('\n'),
        !figures.elapsed_ms@.contains(' ') && !figures.elapsed_ms@.contains('\n'),
        !root.score@.contains(' ') && !root.score@.contains('\n'),
        !other_opts.label.contains(' ') && !other_opts.label.contains('\n'),
        !other_figures.best_mean@.contains(' ') && !other_figures.best_mean@.contains('\n'),
        !other_figures.elapsed_ms@.contains(' ') && !other_figures.elapsed_ms@.contains('\n'),
        !other_root.score@.contains(' ') && !other_root.score@.contains('\n'),
        line_of("ROOT"@, round_fields(opts, root, round, figures)) == line_of(
            "ROOT"@,
            round_fields(other_opts, other_root, other_round, other_figures),
        ),
    ensures
        opts.label == other_opts.label,
        opts.turn == other_opts.turn,
        round == other_round,
        root.candidates == other_root.candidates,
        figures.searched == other_figures.searched,
        figures.best == other_figures.best,
        figures.best_mean@ == other_figures.best_mean@,
        root.score@ == other_root.score@,
        figures.elapsed_ms@ == other_figures.elapsed_ms@,
{
    law_round_line_is_read_back(opts, root, round, figures);
    law_round_line_is_read_back(other_opts, other_root, other_round, other_figures);
}

/// The fields of the line about all rounds together: the label, the target turn, the
/// number of rounds and the figures of their times.
pub proof fn law_median_fields_tell_the_rounds(opts: RootModel, times: TimeSummary)
    ensures
        ({
            let words = line_words("ROOT_MEDIAN"@, median_fields(opts, times));
            &&& words.len() == 9
            &&& words[0] == "ROOT_MEDIAN"@
            &&& tells(words[1], "label"@, opts.label)
            &&& tells_number(words[2], "turn"@, opts.turn as int)
            &&& tells_number(words[3], "rounds"@, opts.rounds as int)
            &&& tells(words[4], "median_ms"@, times.median@)
            &&& tells(words[5], "mean_ms"@, times.mean@)
            &&& tells(words[6], "min_ms"@, times.min@)
            &&& tells(words[7], "max_ms"@, times.max@)
            &&& tells(words[8], "std_ms"@, times.std@)
        }),
{
    lemma_field_tells("label"@, opts.label);
    lemma_field_tells_number("turn"@, opts.turn as int);
    lemma_field_tells_number("rounds"@, opts.rounds as int);
    lemma_field_tells("median_ms"@, times.median@);
    lemma_field_tells("mean_ms"@, times.mean@);
    lemma_field_tells("min_ms"@, times.min@);
    lemma_field_tells("max_ms"@, times.max@);
    lemma_field_tells("std_ms"@, times.std@);
}

/// The fields of the line about all games: the label, the number of games, and the
/// figures of their times and scores.
pub proof fn law_whole_fields_tell_the_games(
    opts: WholeModel,
    times: TimeSummary,
    scores: ScoreSummary,
)
    ensures
        ({
            let words = line_words("WHOLE"@, whole_fields(opts, times, scores));
            &&& words.len() == 11
            &&& words[0] == "WHOLE"@
            &&& tells(words[1], "label"@, opts.label)
            &&& tells_number(words[2], "runs"@, opts.runs as int)
            &&& tells(words[3], "mean_ms"@, times.mean@)
            &&& tells(words[4], "median_ms"@, times.median@)
            &&& tells(words[5], "min_ms"@, times.min@)
            &&& tells(words[6], "max_ms"@, times.max@)
            &&& tells(words[7], "std_ms"@, times.std@)
            &&& tells(words[8], "score_mean"@, scores.mean@)
            &&& tells(words[9], "score_min"@, scores.min@)
            &&& tells(words[10], "score_max"@, scores.max@)
        }),
{
    lemma_field_tells("label"@, opts.label);
    lemma_field_tells_number("runs"@, opts.runs as int);
    lemma_field_tells("mean_ms"@, times.mean@);
    lemma_field_tells("median_ms"@, times.median@);
    lemma_field_tells("min_ms"@, times.min@);
    lemma_field_tells("max_ms"@, times.max@);
    lemma_field_tells("std_ms"@, times.std@);
    lemma_field_tells("score_mean"@, scores.mean@);
    lemma_field_tells("score_min"@, scores.min@);
    lemma_field_tells("score_max"@, scores.max@);
}

/// Whether `text` is a list in square brackets that is read as this deck, with its own
/// sixth card whatever the friend card is.
pub open spec fn lists_deck(text: Seq<char>, deck: Seq<u32>) -> bool {
    &&& text.len() >= 2
    &&& text[0] == '[' && text.last() == ']'
    &&& forall|friend: u32|
        #[trigger] deck_of(text.subrange(1, text.len() - 1), friend) == Ok::<Seq<u32>, ErrorModel>(
            deck,
        )
}

/// A deck in square brackets is read back as itself.
pub proof fn law_listed_deck_is_read_back(deck: Seq<u32>)
    requires
        deck.len() == 6,
    ensures
        lists_deck(deck_wording(deck), deck),
{
    reveal_strlit("[");
    reveal_strlit("]");
    reveal_strlit(", ");
    assert(", "@ =~= seq![',', ' ']);
    let inner = join(card_texts(deck), ", "@);
    let text = deck_wording(deck);
    assert(text.subrange(1, text.len() - 1) =~= inner);
    assert forall|friend: u32| #[trigger] deck_of(inner, friend) == Ok::<Seq<u32>, ErrorModel>(
        deck,
    ) by {
        law_spaced_deck_is_read_back(deck, friend);
    }
}

/// The fields of the line that opens a `root` run: the label, the trainee, the target
/// turn, the size of the searches, the number of rounds, the two seeds, and the deck.
pub proof fn law_info_fields_tell_the_options(opts: RootModel, search_n: usize, deck: Seq<u32>)
    requires
        deck.len() == 6,
    ensures
        ({
            let words = line_words("INFO"@, info_fields(opts, search_n as nat, deck));
            &&& words.len() == 9
            &&& words[0] == "INFO"@
            &&& tells(words[1], "label"@, opts.label)
            &&& tells_number(words[2], "uma"@, opts.uma as int)
            &&& tells_number(words[3], "turn"@, opts.turn as int)
            &&& tells_number(words[4], "search_n"@, search_n as int)
            &&& tells_number(words[5], "rounds"@, opts.rounds as int)
            &&& tells_number(words[6], "seed"@, opts.seed as int)
            &&& tells_number(words[7], "search_seed"@, opts.search_seed as int)
            &&& value_in(words[8], "deck"@) matches Some(list) && lists_deck(list, deck)
        }),
{
    lemma_field_tells("label"@, opts.label);
    lemma_field_tells_number("uma"@, opts.uma as int);
    lemma_field_tells_number("turn"@, opts.turn as int);
    lemma_field_tells_number("search_n"@, search_n as int);
    lemma_field_tells_number("rounds"@, opts.rounds as int);
    lemma_field_tells_number("seed"@, opts.seed as int);
    lemma_field_tells_number("search_seed"@, opts.search_seed as int);
    lemma_field_tells("deck"@, deck_wording(deck));
    law_listed_deck_is_read_back(deck);
}

/// The line about the root tells its turn and how many candidates it has, in numbers
/// that are read back, its score, and how it is searched.
pub proof fn law_position_line_tells_the_root(at: RootPosition)
    ensures
        exists|turn: Seq<char>, count: Seq<char>|
            #![trigger stands_for(turn, at.turn as int), stands_for(count, at.candidates as int)]
            stands_for(turn, at.turn as int) && stands_for(count, at.candidates as int)
                && position_wording(at) == "INFO  根局面: turn="@ + turn + " stage=Train 候选 "@ + count
                + " 个 score="@ + at.score@ + " | group_size="@ + at.group_size@ + " expected_stdev="@
                + at.expected_stdev@,
{
    law_decimal_stands_for_its_number(at.turn as int, 0);
    law_decimal_stands_for_its_number(at.candidates as int, 0);
    assert(stands_for(signed_decimal(at.turn as int), at.turn as int));
    assert(stands_for(decimal(at.candidates as nat), at.candidates as int));
}

/// The line about the root, taken apart at its blanks, where the figures given as text
/// hold none: it tells the turn, the number of candidates, the score, and how the root
/// is searched, each in its place.
pub proof fn law_position_line_is_read_back(at: RootPosition)
    requires
        !at.score@.contains(' '),
        !at.group_size@.contains(' '),
        !at.expected_stdev@.contains(' '),
    ensures
        ({
            let words = split(position_wording(at), ' ');
            &&& words.len() == 12
            &&& words[0] == "INFO"@ && words[1] == Seq::<char>::empty() && words[2] == "根局面:"@
            &&& tells_number(words[3], "turn"@, at.turn as int)
            &&& tells(words[4], "stage"@, "Train"@)
            &&& words[5] == "候选"@ && stands_for(words[6], at.candidates as int) && words[7] == "个"@
            &&& tells(words[8], "score"@, at.score@)
            &&& words[9] == "|"@
            &&& tells(words[10], "group_size"@, at.group_size@)
            &&& tells(words[11], "expected_stdev"@, at.expected_stdev@)
        }),
{
    let words = position_words(at);
    lemma_position_line(at);
    lemma_position_words_are_plain(at);
    law_split_undoes_join(words, ' ');
    lemma_field_tells_number("turn"@, at.turn as int);
    lemma_field_tells("stage"@, "Train"@);
    lemma_field_tells("score"@, at.score@);
    lemma_field_tells("group_size"@, at.group_size@);
    lemma_field_tells("expected_stdev"@, at.expected_stdev@);
    law_decimal_stands_for_its_number(at.candidates as int, 0);
}

/// The words of the line about the root.
spec fn position_words(at: RootPosition) -> Seq<Seq<char>> {
    seq![
        "INFO"@,
        Seq::empty(),
        "根局面:"@,
        field_text(("turn"@, signed_decimal(at.turn as int))),
        field_text(("stage"@, "Train"@)),
        "候选"@,
        decimal(at.candidates as nat),
        "个"@,
        field_text(("score"@, at.score@)),
        "|"@,
        field_text(("group_size"@, at.group_size@)),
        field_text(("expected_stdev"@, at.expected_stdev@)),
    ]
}

/// The first words of a line, and the next one.
proof fn lemma_join_next(words: Seq<Seq<char>>, n: int)
    requires
        0 < n < words.len(),
    ensures
        join(words.take(n + 1), seq![' ']) == join(words.take(n), seq![' ']) + seq![' '] + words[n],
{
    assert(words.take(n + 1).drop_last() =~= words.take(n));
}

/// Two words, or one, put behind a line together with the next one.
proof fn lemma_words_behind(a: Seq<char>, one: Seq<char>, two: Seq<char>, last: Seq<char>)
    ensures
        a + seq![' '] + one + seq![' '] + two + seq![' '] + last == a + (seq![' '] + one + seq![' ']
            + two + seq![' ']) + last,
{
    assert(a + seq![' '] + one + seq![' '] + two + seq![' '] + last =~= a + (seq![' '] + one + seq![
        ' ',
    ] + two + seq![' ']) + last);
}

/// A word and a field, or the field alone, put behind a line.
proof fn lemma_field_behind(a: Seq<char>, one: Seq<char>, key: Seq<char>, value: Seq<char>)
    ensures
        a + seq![' '] + one + seq![' '] + field_text((key, value)) == a + (seq![' '] + one + seq![' ']
            + key + seq!['=']) + value,
        a + seq![' '] + field_text((key, value)) == a + (seq![' '] + key + seq!['=']) + value,
{
    assert(a + seq![' '] + one + seq![' '] + field_text((key, value)) =~= a + (seq![' '] + one + seq![
        ' ',
    ] + key + seq!['=']) + value);
    assert(a + seq![' '] + field_text((key, value)) =~= a + (seq![' '] + key + seq!['=']) + value);
}

/// The fixed texts of the line about the root.
#[verifier::spinoff_prover]
proof fn lemma_position_texts()
    ensures
        "INFO  根局面: turn="@ == "INFO"@ + seq![' '] + Seq::empty() + seq![' '] + "根局面:"@ + (seq![' ']
            + "turn"@ + seq!['=']),
        " stage=Train 候选 "@ == seq![' '] + field_text(("stage"@, "Train"@)) + seq![' '] + "候选"@
            + seq![' '],
        " 个 score="@ == seq![' '] + "个"@ + seq![' '] + "score"@ + seq!['='],
        " | group_size="@ == seq![' '] + "|"@ + seq![' '] + "group_size"@ + seq!['='],
        " expected_stdev="@ == seq![' '] + "expected_stdev"@ + seq!['='],
{
    assert("INFO  根局面: turn="@ =~= "INFO"@ + seq![' '] + Seq::empty() + seq![' '] + "根局面:"@ + (seq![
        ' ',
    ] + "turn"@ + seq!['='])) by {
        reveal_strlit("INFO");
        reveal_strlit("根局面:");
        reveal_strlit("turn");
        reveal_strlit("INFO  根局面: turn=");
    }
    assert(" stage=Train 候选 "@ =~= seq![' '] + field_text(("stage"@, "Train"@)) + seq![' '] + "候选"@
        + seq![' ']) by {
        reveal_strlit("stage");
        reveal_strlit("Train");
        reveal_strlit("候选");
        reveal_strlit(" stage=Train 候选 ");
    }
    assert(" 个 score="@ =~= seq![' '] + "个"@ + seq![' '] + "score"@ + seq!['=']) by {
        reveal_strlit("个");
        reveal_strlit("score");
        reveal_strlit(" 个 score=");
    }
    assert(" | group_size="@ =~= seq![' '] + "|"@ + seq![' '] + "group_size"@ + seq!['=']) by {
        reveal_strlit("|");
        reveal_strlit("group_size");
        reveal_strlit(" | group_size=");
    }
    assert(" expected_stdev="@ =~= seq![' '] + "expected_stdev"@ + seq!['=']) by {
        reveal_strlit("expected_stdev");
        reveal_strlit(" expected_stdev=");
    }
}

/// The line about the root consists of its words.
#[verifier::spinoff_prover]
proof fn lemma_position_line(at: RootPosition)
    ensures
        position_wording(at) == join(position_words(at), seq![' ']),
{
    let words = position_words(at);
    let turn = signed_decimal(at.turn as int);
    let count = decimal(at.candidates as nat);
    let stage = field_text(("stage"@, "Train"@));
    lemma_position_texts();
    assert(words.take(1) =~= seq![words[0]]);
    lemma_join_next(words, 1);
    lemma_join_next(words, 2);
    lemma_join_next(words, 3);
    let start = join(words.take(3), seq![' ']);
    lemma_field_behind(start, start, "turn"@, turn);
    let one = "INFO  根局面: turn="@ + turn;
    assert(join(words.take(4), seq![' ']) == one);
    lemma_join_next(words, 4);
    lemma_join_next(words, 5);
    lemma_join_next(words, 6);
    lemma_words_behind(one, stage, "候选"@, count);
    let two = one + " stage=Train 候选 "@ + count;
    assert(join(words.take(7), seq![' ']) == two);
    lemma_join_next(words, 7);
    lemma_join_next(words, 8);
    lemma_field_behind(two, "个"@, "score"@, at.score@);
    let three = two + " 个 score="@ + at.score@;
    assert(join(words.take(9), seq![' ']) == three);
    lemma_join_next(words, 9);
    lemma_join_next(words, 10);
    lemma_field_behind(three, "|"@, "group_size"@, at.group_size@);
    let four = three + " | group_size="@ + at.group_size@;
    assert(join(words.take(11), seq![' ']) == four);
    lemma_join_next(words, 11);
    lemma_field_behind(four, four, "expected_stdev"@, at.expected_stdev@);
    assert(words.take(12) =~= words);
}

/// The words of the line about the root hold no blank.
#[verifier::spinoff_prover]
proof fn lemma_position_words_are_plain(at: RootPosition)
    requires
        !at.score@.contains(' '),
        !at.group_size@.contains(' '),
        !at.expected_stdev@.contains(' '),
    ensures
        forall|i: int| 0 <= i < 12 ==> !(#[trigger] position_words(at)[i]).contains(' '),
{
    let words = position_words(at);
    reveal_strlit("INFO");
    reveal_strlit("根局面:");
    reveal_strlit("turn");
    reveal_strlit("stage");
    reveal_strlit("Train");
    reveal_strlit("候选");
    reveal_strlit("个");
    reveal_strlit("score");
    reveal_strlit("|");
    reveal_strlit("group_size");
    reveal_strlit("expected_stdev");
    lemma_decimal_is_plain(at.turn as int);
    lemma_decimal_is_plain(at.candidates as int);
    lemma_field_is_plain("turn"@, signed_decimal(at.turn as int));
    lemma_field_is_plain("stage"@, "Train"@);
    lemma_field_is_plain("score"@, at.score@);
    lemma_field_is_plain("group_size"@, at.group_size@);
    lemma_field_is_plain("expected_stdev"@, at.expected_stdev@);
}

/// A field without blanks in its key and its value holds none.
proof fn lemma_field_is_plain(key: Seq<char>, value: Seq<char>)
    requires
        !key.contains(' '),
        !value.contains(' '),
    ensures
        !field_text((key, value)).contains(' '),
{
    let word = field_text((key, value));
    assert forall|j: int| 0 <= j < word.len() implies word[j] != ' ' by {
        if j < key.len() {
            assert(word[j] == key[j]);
        } else if j > key.len() {
            assert(word[j] == value[j - key.len() - 1]);
        }
    }
}

} // verus!
