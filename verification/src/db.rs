//! The rotation as the ticker shows it: singers, the state handed to clients, and the position
//! that the settings files record.

use vstd::prelude::*;
use vstd::slice::slice_subrange;

use crate::number::{
    i64_value, law_numeral_round_trip, lemma_numeral_shape, numeral, parse_i64,
};
use crate::text::{
    ascii_lower, chars_of, eq_ignoring_ascii_case, find, first_some, is_white_space,
    law_first_of_two_lists, law_line_feed_separates, law_same_in_lower_case,
    law_text_without_line_feed_is_one_line, law_trimming_leaves,
    law_trimming_takes_white_space_only, lemma_first_some, lemma_leading_white_space,
    lemma_trailing_white_space, lemma_untrimmed, lines, same_ignoring_ascii_case, trim,
    trimmed,
};

verus! {

/// One singer of the rotation.
#[derive(Debug)]
pub struct Singer {
    pub name: String,
    /// Artist of the first unplayed song in the singer's queue.
    pub next_song_artist: Option<String>,
    /// Title of the first unplayed song in the singer's queue.
    pub next_song_title: Option<String>,
    pub is_current: bool,
}

/// What a `Singer` stands for.
#[verifier::ext_equal]
pub struct SingerView {
    pub name: Seq<char>,
    pub next_song_artist: Option<Seq<char>>,
    pub next_song_title: Option<Seq<char>>,
    pub is_current: bool,
}

impl DeepView for Singer {
    type V = SingerView;

    open spec fn deep_view(&self) -> SingerView {
        SingerView {
            name: self.name@,
            next_song_artist: self.next_song_artist.deep_view(),
            next_song_title: self.next_song_title.deep_view(),
            is_current: self.is_current,
        }
    }
}

impl Clone for Singer {
    fn clone(&self) -> (r: Self)
        ensures
            r == *self,
    {
        Singer {
            name: self.name.clone(),
            next_song_artist: self.next_song_artist.clone(),
            next_song_title: self.next_song_title.clone(),
            is_current: self.is_current,
        }
    }
}

/// Everything a client needs to draw the rotation.
#[derive(Debug)]
pub struct KaraokeState {
    /// Singer currently up or singing.
    pub current_singer: Option<Singer>,
    /// The singer immediately after the current one in rotation order.
    pub next_up: Option<Singer>,
    /// Full rotation in position order.
    pub rotation: Vec<Singer>,
    /// The configured display limit, passed through to the client.
    pub singer_count: usize,
    /// Whether the current singer's most recently started song is still in their unplayed queue.
    pub is_playing: bool,
    pub status: String,
}

/// What a `KaraokeState` stands for.
#[verifier::ext_equal]
pub struct StateView {
    pub current_singer: Option<SingerView>,
    pub next_up: Option<SingerView>,
    pub rotation: Seq<SingerView>,
    pub singer_count: usize,
    pub is_playing: bool,
    pub status: Seq<char>,
}

impl DeepView for KaraokeState {
    type V = StateView;

    open spec fn deep_view(&self) -> StateView {
        StateView {
            current_singer: self.current_singer.deep_view(),
            next_up: self.next_up.deep_view(),
            rotation: self.rotation.deep_view(),
            singer_count: self.singer_count,
            is_playing: self.is_playing,
            status: self.status@,
        }
    }
}

impl Clone for KaraokeState {
    fn clone(&self) -> (r: Self)
        ensures
            r.deep_view() == self.deep_view(),
            r.current_singer == self.current_singer,
            r.next_up == self.next_up,
            r.rotation@ == self.rotation@,
            r.singer_count == self.singer_count,
            r.is_playing == self.is_playing,
            r.status == self.status,
    {
        let rotation = self.rotation.clone();
        assert(rotation@ =~= self.rotation@);
        KaraokeState {
            current_singer: self.current_singer.clone(),
            next_up: self.next_up.clone(),
            rotation,
            singer_count: self.singer_count,
            is_playing: self.is_playing,
            status: self.status.clone(),
        }
    }
}

/// The view of a singer holds each of their fields, and nothing in place of it.
pub proof fn law_view_of_a_singer(singer: Singer)
    ensures
        singer.deep_view().name == singer.name@,
        singer.deep_view().next_song_artist == match singer.next_song_artist {
            Some(artist) => Some(artist@),
            None => None,
        },
        singer.deep_view().next_song_title == match singer.next_song_title {
            Some(title) => Some(title@),
            None => None,
        },
        singer.deep_view().is_current == singer.is_current,
{
}

/// The view of a state holds each of its fields, and nothing in place of it.
pub proof fn law_view_of_a_state(state: KaraokeState)
    ensures
        state.deep_view().current_singer == match state.current_singer {
            Some(singer) => Some(singer.deep_view()),
            None => None,
        },
        state.deep_view().next_up == match state.next_up {
            Some(singer) => Some(singer.deep_view()),
            None => None,
        },
        state.deep_view().rotation.len() == state.rotation@.len(),
        forall|i: int|
            0 <= i < state.rotation@.len() ==> #[trigger] state.deep_view().rotation[i]
                == state.rotation@[i].deep_view(),
        state.deep_view().singer_count == state.singer_count,
        state.deep_view().is_playing == state.is_playing,
        state.deep_view().status == state.status@,
{
}

/// The key and the value of a `key=value` line, both trimmed. The value runs from the first `=`
/// to the end of the line.
pub open spec fn setting_of(line: Seq<char>) -> Option<(Seq<char>, Seq<char>)> {
    let body = trimmed(line);
    match body.index_of_first('=') {
        Some(i) => Some((trimmed(body.take(i)), trimmed(body.skip(i + 1)))),
        None => None,
    }
}

/// The singer id that one line records: its key is `currentRotationPosition` in any case, and
/// its value is an integer.
pub open spec fn position_in_line(line: Seq<char>) -> Option<i64> {
    match setting_of(line) {
        Some((key, value)) => if same_ignoring_ascii_case(key, "currentRotationPosition"@) {
            i64_value(value)
        } else {
            None
        },
        None => None,
    }
}

/// The singer id that a settings text records: that of its first line that records one.
pub open spec fn position_in_text(content: Seq<char>) -> Option<i64> {
    first_some(lines(content).map_values(|line: Seq<char>| position_in_line(line)))
}

/// The singer id that the settings files record: that of the first readable file that records
/// one.
pub open spec fn position_in_files(files: Seq<Option<Seq<char>>>) -> Option<i64> {
    first_some(
        files.map_values(
            |file: Option<Seq<char>>|
                match file {
                    Some(content) => position_in_text(content),
                    None => None,
                },
        ),
    )
}

/// The names of the settings files in the data directory, in the order in which they are
/// consulted.
pub open spec fn settings_names() -> Seq<Seq<char>> {
    seq!["openkj.ini"@, "openkj2.ini"@, "openkj2-unstable.ini"@]
}

/// The names of the settings files in the data directory, in the order in which they are
/// consulted.
pub fn settings_files() -> (r: Vec<String>)
    ensures
        r.deep_view() == settings_names(),
{
    let r = vec![
        "openkj.ini".to_owned(),
        "openkj2.ini".to_owned(),
        "openkj2-unstable.ini".to_owned(),
    ];
    assert(r.deep_view() =~= settings_names());
    r
}

fn read_line_position(line: &[char]) -> (r: Option<i64>)
    ensures
        r == position_in_line(line@),
{
    let body = trim(line);
    match find(body, '=') {
        Some(i) => {
            let before = slice_subrange(body, 0, i);
            assert(body@.len() == body.len());
            let after = slice_subrange(body, i + 1, body.len());
            assert(before@ =~= body@.take(i as int));
            assert(after@ =~= body@.skip(i + 1));
            let wanted = chars_of("currentRotationPosition");
            if eq_ignoring_ascii_case(trim(before), wanted.as_slice()) {
                parse_i64(trim(after))
            } else {
                None
            }
        },
        None => None,
    }
}

/// Finds the singer id recorded in one settings text.
pub fn read_text_position(content: &str) -> (r: Option<i64>)
    ensures
        r == position_in_text(content@),
{
    let chars = chars_of(content);
    let all = chars.as_slice();
    let mut start: usize = 0;
    assert(all@.skip(0) =~= all@);
    loop
        invariant
            start <= all@.len(),
            all@ == content@,
            position_in_text(content@) == position_in_text(all@.skip(start as int)),
        decreases all@.len() - start,
    {
        let rest = slice_subrange(all, start, all.len());
        assert(rest@ =~= all@.skip(start as int));
        let ghost entries = lines(rest@).map_values(|line: Seq<char>| position_in_line(line));
        match find(rest, '\n') {
            Some(i) => {
                let line = slice_subrange(rest, 0, i);
                assert(line@ =~= rest@.take(i as int));
                let found = read_line_position(line);
                assert(entries[0] == found);
                if found.is_some() {
                    return found;
                }
                assert(entries.drop_first() =~= lines(rest@.skip(i + 1)).map_values(
                    |line: Seq<char>| position_in_line(line),
                ));
                assert(rest@.skip(i + 1) =~= all@.skip(start + i + 1));
                start = start + i + 1;
            },
            None => {
                let found = read_line_position(rest);
                assert(entries[0] == found);
                assert(entries.drop_first() =~= Seq::<Option<i64>>::empty());
                assert(first_some(entries.drop_first()) is None);
                return found;
            },
        }
    }
}

/// Finds the singer id that the settings files record. `files` holds, for each name of
/// `settings_files` in order, what that file contains, or nothing where it cannot be read.
pub fn read_current_singer_id(files: &Vec<Option<String>>) -> (r: Option<i64>)
    ensures
        r == position_in_files(files.deep_view()),
{
    let ghost entries = files.deep_view().map_values(
        |file: Option<Seq<char>>|
            match file {
                Some(content) => position_in_text(content),
                None => None,
            },
    );
    let mut k: usize = 0;
    assert(entries.skip(0) =~= entries);
    while k < files.len()
        invariant
            k <= files@.len(),
            entries.len() == files@.len(),
            first_some(entries) == first_some(entries.skip(k as int)),
            entries == files.deep_view().map_values(
                |file: Option<Seq<char>>|
                    match file {
                        Some(content) => position_in_text(content),
                        None => None,
                    },
            ),
        decreases files@.len() - k,
    {
        assert(entries.skip(k as int).drop_first() =~= entries.skip(k + 1));
        assert(entries[k as int] == match files@[k as int] {
            Some(content) => position_in_text(content@),
            None => None,
        });
        if let Some(content) = &files[k] {
            let found = read_text_position(content.as_str());
            if found.is_some() {
                return found;
            }
        }
        k = k + 1;
    }
    None
}

/// A settings file that cannot be read counts for nothing: leaving it out gives the same id.
pub proof fn law_unreadable_file_is_skipped(
    before: Seq<Option<Seq<char>>>,
    after: Seq<Option<Seq<char>>>,
)
    ensures
        position_in_files(before + seq![None] + after) == position_in_files(before + after),
    decreases before.len(),
{
    let f = |file: Option<Seq<char>>|
        match file {
            Some(content) => position_in_text(content),
            None => None::<i64>,
        };
    let with = before + seq![None] + after;
    let without = before + after;
    if before.len() == 0 {
        assert(with.map_values(f).drop_first() =~= without.map_values(f));
    } else {
        law_unreadable_file_is_skipped(before.drop_first(), after);
        assert(with.map_values(f).drop_first() =~= (before.drop_first() + seq![None]
            + after).map_values(f));
        assert(without.map_values(f).drop_first() =~= (before.drop_first() + after).map_values(f));
    }
}

/// The id comes from the first file that records one, and from the first line of that file that
/// records one; without such a line there is no id.
pub proof fn law_first_recorded_position_wins(files: Seq<Option<Seq<char>>>)
    ensures
        match position_in_files(files) {
            Some(id) => exists|k: int, l: int|
                0 <= k < files.len() && files[k] is Some && 0 <= l < lines(
                    #[trigger] files[k]->0,
                ).len() && position_in_line(#[trigger] lines(files[k]->0)[l]) == Some(id) && (
                forall|m: int|
                    0 <= m < l ==> position_in_line(#[trigger] lines(files[k]->0)[m]) is None) && (
                forall|j: int|
                    0 <= j < k ==> (#[trigger] files[j] matches Some(c) ==> position_in_text(c)
                        is None)) && (forall|j: int, m: int|
                    0 <= j < k && files[j] is Some && 0 <= m < lines(#[trigger] files[j]->0).len()
                        ==> position_in_line(#[trigger] lines(files[j]->0)[m]) is None),
            None => forall|k: int, l: int|
                0 <= k < files.len() && files[k] is Some && 0 <= l < lines(
                    #[trigger] files[k]->0,
                ).len() ==> position_in_line(#[trigger] lines(files[k]->0)[l]) is None,
        },
{
    let f = |file: Option<Seq<char>>|
        match file {
            Some(content) => position_in_text(content),
            None => None::<i64>,
        };
    let g = |line: Seq<char>| position_in_line(line);
    let entries = files.map_values(f);
    lemma_first_some(entries);
    match position_in_files(files) {
        Some(id) => {
            let k = choose|k: int|
                0 <= k < entries.len() && #[trigger] entries[k] == Some(id) && (forall|j: int|
                    0 <= j < k ==> entries[j] is None);
            let own = lines(files[k]->0).map_values(g);
            lemma_first_some(own);
            let l = choose|l: int|
                0 <= l < own.len() && #[trigger] own[l] == Some(id) && (forall|j: int|
                    0 <= j < l ==> own[j] is None);
            assert(position_in_line(lines(files[k]->0)[l]) == Some(id));
            assert forall|m: int| 0 <= m < l implies position_in_line(
                #[trigger] lines(files[k]->0)[m],
            ) is None by {
                assert(own[m] is None);
            }
            assert forall|j: int| 0 <= j < k implies (#[trigger] files[j] matches Some(c)
                ==> position_in_text(c) is None) by {
                assert(entries[j] is None);
            }
            assert forall|j: int, m: int|
                0 <= j < k && files[j] is Some && 0 <= m < lines(
                    #[trigger] files[j]->0,
                ).len() implies position_in_line(#[trigger] lines(files[j]->0)[m]) is None by {
                assert(entries[j] is None);
                let other = lines(files[j]->0).map_values(g);
                lemma_first_some(other);
                assert(other[m] is None);
            }
        },
        None => {
            assert forall|k: int, l: int|
                0 <= k < files.len() && files[k] is Some && 0 <= l < lines(
                    #[trigger] files[k]->0,
                ).len() implies position_in_line(#[trigger] lines(files[k]->0)[l]) is None by {
                assert(entries[k] is None);
                let own = lines(files[k]->0).map_values(g);
                lemma_first_some(own);
                assert(own[l] is None);
            }
        },
    }
}

/// The case of the letters of a key does not matter: two lines whose keys differ only in the case
/// of ASCII letters, and whose values are the same, record the same.
pub proof fn law_key_case_does_not_matter(a: Seq<char>, b: Seq<char>)
    requires
        setting_of(a) is Some,
        setting_of(b) is Some,
        same_ignoring_ascii_case((setting_of(a)->0).0, (setting_of(b)->0).0),
        (setting_of(a)->0).1 == (setting_of(b)->0).1,
    ensures
        position_in_line(a) == position_in_line(b),
{
    let ka = (setting_of(a)->0).0;
    let kb = (setting_of(b)->0).0;
    let wanted = "currentRotationPosition"@;
    if same_ignoring_ascii_case(ka, wanted) || same_ignoring_ascii_case(kb, wanted) {
        assert forall|i: int| 0 <= i < wanted.len() implies ascii_lower(#[trigger] ka[i])
            == ascii_lower(wanted[i]) && ascii_lower(kb[i]) == ascii_lower(wanted[i]) by {
            assert(ascii_lower(ka[i]) == ascii_lower(kb[i]));
            if same_ignoring_ascii_case(kb, wanted) {
                assert(ascii_lower(kb[i]) == ascii_lower(wanted[i]));
            }
        }
        assert forall|i: int| 0 <= i < wanted.len() implies ascii_lower(#[trigger] kb[i])
            == ascii_lower(wanted[i]) by {
            assert(ascii_lower(ka[i]) == ascii_lower(wanted[i]));
        }
    }
}

/// A recorded position is read back: the line that gives the numeral of `id` to
/// `currentRotationPosition` records `id`.
pub proof fn law_recorded_position_is_read(id: i64)
    ensures
        position_in_line("currentRotationPosition"@ + seq!['='] + numeral(id as int)) == Some(id),
{
    let key = "currentRotationPosition"@;
    let value = numeral(id as int);
    let line = key + seq!['='] + value;
    reveal_strlit("currentRotationPosition");
    lemma_numeral_shape(id as int);
    lemma_untrimmed(line);
    lemma_untrimmed(key);
    lemma_untrimmed(value);
    line.index_of_first_ensures('=');
    assert(line[23] == '=');
    assert(line.contains('='));
    assert(line.index_of_first('=') == Some(23int));
    assert(line.take(23) =~= key);
    assert(line.skip(24) =~= value);
    law_numeral_round_trip(id);
}

/// A line records a position only under the key: what stands before its first `=` is, trimmed,
/// `currentRotationPosition` up to the case of ASCII letters. It then records what stands after
/// that `=`, trimmed and read as an integer. Any other line records nothing.
pub proof fn law_line_records_under_the_key_only(line: Seq<char>)
    ensures
        match line.index_of_first('=') {
            Some(i) => position_in_line(line) == if trimmed(line.take(i)).map_values(
                |c: char| ascii_lower(c),
            ) == "currentRotationPosition"@.map_values(|c: char| ascii_lower(c)) {
                i64_value(trimmed(line.skip(i + 1)))
            } else {
                None
            },
            None => position_in_line(line) is None,
        },
{
    line.index_of_first_ensures('=');
    let body = trimmed(line);
    body.index_of_first_ensures('=');
    match line.index_of_first('=') {
        Some(i) => {
            let before = line.take(i);
            let after = line.skip(i + 1);
            let a = lemma_leading_white_space(before);
            let e = lemma_trailing_white_space(after);
            let b = i + 1 + e;
            // The line from `a` to `b` is what trimming leaves of it.
            assert forall|j: int| 0 <= j < a implies is_white_space(#[trigger] line[j]) by {
                assert(is_white_space(before[j]));
            }
            assert forall|j: int| b <= j < line.len() implies is_white_space(#[trigger] line[j]) by {
                assert(is_white_space(after[j - i - 1]));
            }
            assert(line[a] == if a < i {
                before[a]
            } else {
                '='
            });
            assert(line[b - 1] == if e > 0 {
                after[e - 1]
            } else {
                '='
            });
            law_trimming_leaves(line, a, b);
            assert(body[i - a] == '=');
            assert(body.contains(body[i - a]));
            let k = body.index_of_first('=')->0;
            assert(k == i - a) by {
                if k < i - a {
                    assert(body[k] == line[k + a]);
                }
            }
            // The key and the value are trimmed as if they stood alone.
            let key = body.take(k);
            let value = body.skip(k + 1);
            assert(key =~= before.subrange(a, i));
            assert(value =~= after.subrange(0, e));
            let f = lemma_trailing_white_space(before);
            let f = if f < a {
                a
            } else {
                f
            };
            if a < i {
                assert(f > a) by {
                    if f <= a {
                        assert(is_white_space(before[a]));
                    }
                }
            }
            law_trimming_leaves(before, a, f);
            assert forall|j: int| f - a <= j < key.len() implies is_white_space(#[trigger] key[j]) by {
                assert(is_white_space(before[j + a]));
            }
            law_trimming_leaves(key, 0, f - a);
            assert(key.subrange(0, f - a) =~= before.subrange(a, f));
            let g = lemma_leading_white_space(after);
            let h = if g > e {
                e
            } else {
                g
            };
            if e > 0 {
                assert(h < e) by {
                    if g >= e {
                        assert(is_white_space(after[e - 1]));
                    }
                }
            }
            law_trimming_leaves(after, h, e);
            assert forall|j: int| 0 <= j < h implies is_white_space(#[trigger] value[j]) by {
                assert(is_white_space(after[j]));
            }
            law_trimming_leaves(value, h, e);
            assert(value.subrange(h, e) =~= after.subrange(h, e));
            law_same_in_lower_case(trimmed(before), "currentRotationPosition"@);
        },
        None => {
            law_trimming_takes_white_space_only(line);
            let (a, b) = choose|a: int, b: int|
                0 <= a <= b <= line.len() && #[trigger] line.subrange(a, b) == body && (forall|i: int|
                    0 <= i < a ==> is_white_space(#[trigger] line[i])) && (forall|i: int|
                    b <= i < line.len() ==> is_white_space(#[trigger] line[i]));
            if body.contains('=') {
                let k = body.index_of_first('=')->0;
                assert(line[k + a] == '=');
                assert(line.contains(line[k + a]));
            }
        },
    }
}

/// A text is read line by line: a single line records what it records, and of two texts with a
/// line feed between them the first that records a position counts.
pub proof fn law_text_is_read_in_order(a: Seq<char>, b: Seq<char>)
    ensures
        !a.contains('\n') ==> position_in_text(a) == position_in_line(a),
        position_in_text(a + seq!['\n'] + b) == if position_in_text(a) is Some {
            position_in_text(a)
        } else {
            position_in_text(b)
        },
{
    let g = |line: Seq<char>| position_in_line(line);
    if !a.contains('\n') {
        law_text_without_line_feed_is_one_line(a);
        let entries = lines(a).map_values(g);
        assert(entries[0] == position_in_line(a));
        assert(entries.drop_first() =~= Seq::<Option<i64>>::empty());
        assert(first_some(entries.drop_first()) is None);
    }
    law_line_feed_separates(a, b);
    assert((lines(a) + lines(b)).map_values(g) =~= lines(a).map_values(g) + lines(b).map_values(g));
    law_first_of_two_lists(lines(a).map_values(g), lines(b).map_values(g));
}

/// A setting under another key changes nothing, wherever it stands among the lines and whatever
/// its value is.
pub proof fn law_other_setting_changes_nothing(
    before: Seq<char>,
    key: Seq<char>,
    value: Seq<char>,
    after: Seq<char>,
)
    requires
        !key.contains('='),
        !key.contains('\n'),
        !value.contains('\n'),
        trimmed(key).map_values(|c: char| ascii_lower(c)) != "currentRotationPosition"@.map_values(
            |c: char| ascii_lower(c),
        ),
    ensures
        position_in_text(
            before + seq!['\n'] + (key + seq!['='] + value + seq!['\n'] + after),
        ) == position_in_text(before + seq!['\n'] + after),
        position_in_text(key + seq!['='] + value + seq!['\n'] + after) == position_in_text(after),
        position_in_text(key + seq!['='] + value) is None,
{
    let line = key + seq!['='] + value;
    line.index_of_first_ensures('=');
    assert(line[key.len() as int] == '=');
    assert(line.contains('='));
    let i = line.index_of_first('=')->0;
    assert(i == key.len()) by {
        if i < key.len() {
            assert(key[i] == line[i]);
            assert(key.contains(key[i]));
        }
    }
    assert(line.take(i) =~= key);
    law_line_records_under_the_key_only(line);
    assert(!line.contains('\n')) by {
        if line.contains('\n') {
            let j = choose|j: int| 0 <= j < line.len() && line[j] == '\n';
            if j < key.len() {
                assert(key.contains(key[j]));
            } else if j > key.len() {
                assert(value[j - key.len() - 1] == line[j]);
                assert(value.contains(value[j - key.len() - 1]));
            }
        }
    }
    law_text_is_read_in_order(line, after);
    law_text_is_read_in_order(before, line + seq!['\n'] + after);
    law_text_is_read_in_order(before, after);
}

/// The files are read in order: of two runs of files the first that records a position counts; a
/// single file records what its text records, and one that cannot be read records nothing.
pub proof fn law_files_are_read_in_order(
    a: Seq<Option<Seq<char>>>,
    b: Seq<Option<Seq<char>>>,
    text: Seq<char>,
)
    ensures
        position_in_files(a + b) == if position_in_files(a) is Some {
            position_in_files(a)
        } else {
            position_in_files(b)
        },
        position_in_files(seq![Some(text)]) == position_in_text(text),
        position_in_files(seq![None]) is None,
        position_in_files(seq![]) is None,
{
    let f = |file: Option<Seq<char>>|
        match file {
            Some(content) => position_in_text(content),
            None => None::<i64>,
        };
    assert((a + b).map_values(f) =~= a.map_values(f) + b.map_values(f));
    law_first_of_two_lists(a.map_values(f), b.map_values(f));
    let empty = Seq::<Option<i64>>::empty();
    assert(first_some(empty) is None);
    let one: Seq<Option<Seq<char>>> = seq![Some(text)];
    assert(one.map_values(f).drop_first() =~= empty);
    let unreadable: Seq<Option<Seq<char>>> = seq![None];
    assert(unreadable.map_values(f).drop_first() =~= empty);
    let no_files: Seq<Option<Seq<char>>> = seq![];
    assert(no_files.map_values(f) =~= empty);
}

/// The first unplayed song of a queue: artist and title, each as far as it is known.
pub type Song = (Option<String>, Option<String>);

/// What a `Song` stands for.
pub type SongView = (Option<Seq<char>>, Option<Seq<char>>);

/// The rotation entry of one singer, whose id and name are `row`.
pub open spec fn singer_entry(
    row: (i64, Seq<char>),
    song: SongView,
    current_id: Option<i64>,
) -> SingerView {
    SingerView {
        name: row.1,
        next_song_artist: song.0,
        next_song_title: song.1,
        is_current: current_id == Some(row.0),
    }
}

/// The rotation: one entry for each row, in row order. `songs[i]` is the next song of `rows[i]`.
pub open spec fn rotation_of(
    rows: Seq<(i64, Seq<char>)>,
    songs: Seq<SongView>,
    current_id: Option<i64>,
) -> Seq<SingerView> {
    Seq::new(rows.len(), |i: int| singer_entry(rows[i], songs[i], current_id))
}

/// The position of the current singer: the last row that has the current id.
pub open spec fn current_position(rows: Seq<(i64, Seq<char>)>, current_id: Option<i64>) -> Option<
    int,
> {
    match current_id {
        Some(id) => rows.map_values(|row: (i64, Seq<char>)| row.0).index_of_last(id),
        None => None,
    }
}

/// The position that is up after `current` in a rotation of `len` singers: the following one,
/// or the first after the last. Without a current singer the first is up; a singer who is alone
/// is not followed by anyone.
pub open spec fn next_position(len: nat, current: Option<int>) -> Option<int> {
    match current {
        Some(i) => if i + 1 < len {
            Some(i + 1)
        } else if len > 1 {
            Some(0)
        } else {
            None
        },
        None => if len > 0 {
            Some(0)
        } else {
            None
        },
    }
}

/// The entry at `position`, where there is a position.
pub open spec fn entry_at(rotation: Seq<SingerView>, position: Option<int>) -> Option<SingerView> {
    match position {
        Some(i) => Some(rotation[i]),
        None => None,
    }
}

/// The state of a rotation whose current singer stands at `current`.
pub open spec fn state_of(
    rotation: Seq<SingerView>,
    current: Option<int>,
    is_playing: bool,
    singer_count: usize,
) -> StateView {
    StateView {
        current_singer: entry_at(rotation, current),
        next_up: entry_at(rotation, next_position(rotation.len(), current)),
        rotation,
        singer_count,
        is_playing,
        status: "ok"@,
    }
}

/// The state shown while there is no database.
pub open spec fn missing_state(singer_count: usize) -> StateView {
    StateView {
        current_singer: None,
        next_up: None,
        rotation: seq![],
        singer_count,
        is_playing: false,
        status: "database_not_found"@,
    }
}

/// Builds the rotation from the singers' rows and next songs.
pub(crate) fn build_rotation(
    rows: &Vec<(i64, String)>,
    songs: &Vec<Song>,
    current_id: Option<i64>,
) -> (r: Vec<Singer>)
    requires
        songs@.len() == rows@.len(),
    ensures
        r.deep_view() == rotation_of(rows.deep_view(), songs.deep_view(), current_id),
        r@.len() == rows@.len(),
        forall|i: int|
            #![trigger r@[i]]
            0 <= i < r@.len() ==> {
                &&& r@[i].name@ == rows@[i].1@
                &&& r@[i].next_song_artist.deep_view() == songs@[i].0.deep_view()
                &&& r@[i].next_song_title.deep_view() == songs@[i].1.deep_view()
                &&& r@[i].is_current == (current_id == Some(rows@[i].0))
            },
{
    let mut out: Vec<Singer> = Vec::new();
    let mut i: usize = 0;
    while i < rows.len()
        invariant
            i <= rows@.len(),
            songs@.len() == rows@.len(),
            out@.len() == i,
            forall|j: int|
                0 <= j < i ==> (#[trigger] out@[j]).deep_view() == singer_entry(
                    rows.deep_view()[j],
                    songs.deep_view()[j],
                    current_id,
                ),
            forall|j: int|
                #![trigger out@[j]]
                0 <= j < i ==> {
                    &&& out@[j].name@ == rows@[j].1@
                    &&& out@[j].next_song_artist.deep_view() == songs@[j].0.deep_view()
                    &&& out@[j].next_song_title.deep_view() == songs@[j].1.deep_view()
                    &&& out@[j].is_current == (current_id == Some(rows@[j].0))
                },
        decreases rows@.len() - i,
    {
        let is_current: bool = match current_id {
            Some(id) => id == rows[i].0,
            None => false,
        };
        let entry = Singer {
            name: rows[i].1.clone(),
            next_song_artist: songs[i].0.clone(),
            next_song_title: songs[i].1.clone(),
            is_current,
        };
        assert(rows.deep_view()[i as int] == rows@[i as int].deep_view());
        assert(songs.deep_view()[i as int] == songs@[i as int].deep_view());
        out.push(entry);
        i = i + 1;
    }
    assert(out.deep_view() =~= rotation_of(rows.deep_view(), songs.deep_view(), current_id));
    out
}

/// Finds the position of the current singer.
pub fn find_current(rows: &Vec<(i64, String)>, current_id: Option<i64>) -> (r: Option<usize>)
    ensures
        match r {
            Some(i) => current_position(rows.deep_view(), current_id) == Some(i as int) && i
                < rows@.len(),
            None => current_position(rows.deep_view(), current_id) is None,
        },
        match r {
            Some(i) => current_id == Some(rows@[i as int].0) && (forall|j: int|
                i < j < rows@.len() ==> current_id != Some((#[trigger] rows@[j]).0)),
            None => forall|j: int|
                0 <= j < rows@.len() ==> current_id != Some((#[trigger] rows@[j]).0),
        },
{
    let id: i64 = match current_id {
        Some(id) => id,
        None => {
            return None;
        },
    };
    let ghost ids = rows.deep_view().map_values(|row: (i64, Seq<char>)| row.0);
    proof {
        ids.index_of_last_ensures(id);
    }
    let mut i: usize = rows.len();
    while i > 0
        invariant
            i <= rows@.len(),
            ids.len() == rows@.len(),
            ids == rows.deep_view().map_values(|row: (i64, Seq<char>)| row.0),
            current_id == Some(id),
            forall|j: int| i <= j < rows@.len() ==> ids[j] != id,
            forall|j: int| i <= j < rows@.len() ==> (#[trigger] rows@[j]).0 != id,
        decreases i,
    {
        i = i - 1;
        assert(ids[i as int] == rows@[i as int].0);
        if rows[i].0 == id {
            proof {
                assert(ids.contains(id));
                ids.index_of_last_ensures(id);
            }
            return Some(i);
        }
    }
    None
}

/// Picks the singer who is up after the one at `current`.
pub fn next_up(rotation: &Vec<Singer>, current: Option<usize>) -> (r: Option<Singer>)
    ensures
        r.deep_view() == entry_at(
            rotation.deep_view(),
            next_position(
                rotation@.len(),
                match current {
                    Some(i) => Some(i as int),
                    None => None,
                },
            ),
        ),
        match current {
            Some(i) => if i + 1 < rotation@.len() {
                r == Some(rotation@[i + 1])
            } else if rotation@.len() > 1 {
                r == Some(rotation@[0])
            } else {
                r is None
            },
            None => if rotation@.len() > 0 {
                r == Some(rotation@[0])
            } else {
                r is None
            },
        },
{
    let len: usize = rotation.len();
    match current {
        Some(i) => if len > 0 && i < len - 1 {
            Some(rotation[i + 1].clone())
        } else if len > 1 {
            Some(rotation[0].clone())
        } else {
            None
        },
        None => if len > 0 {
            Some(rotation[0].clone())
        } else {
            None
        },
    }
}

/// Puts the state of a rotation together.
pub(crate) fn build_state(
    rotation: Vec<Singer>,
    current: Option<usize>,
    is_playing: bool,
    singer_count: usize,
) -> (r: KaraokeState)
    requires
        current matches Some(i) ==> i < rotation@.len(),
    ensures
        r.deep_view() == state_of(
            rotation.deep_view(),
            match current {
                Some(i) => Some(i as int),
                None => None,
            },
            is_playing,
            singer_count,
        ),
        r.rotation == rotation,
        r.current_singer == match current {
            Some(i) => Some(rotation@[i as int]),
            None => None,
        },
        r.is_playing == is_playing,
        r.singer_count == singer_count,
        r.status@ == "ok"@,
{
    let current_singer: Option<Singer> = match current {
        Some(i) => Some(rotation[i].clone()),
        None => None,
    };
    let next_up = next_up(&rotation, current);
    KaraokeState {
        current_singer,
        next_up,
        rotation,
        singer_count,
        is_playing,
        status: "ok".to_owned(),
    }
}

/// The state shown while there is no database.
pub(crate) fn build_missing_state(singer_count: usize) -> (r: KaraokeState)
    ensures
        r.deep_view() == missing_state(singer_count),
        r.current_singer is None,
        r.next_up is None,
        r.rotation@.len() == 0,
        r.singer_count == singer_count,
        !r.is_playing,
        r.status@ == "database_not_found"@,
{
    let rotation: Vec<Singer> = Vec::new();
    assert(rotation.deep_view() =~= seq![]);
    KaraokeState {
        current_singer: None,
        next_up: None,
        rotation,
        singer_count,
        is_playing: false,
        status: "database_not_found".to_owned(),
    }
}

/// In a rotation of at least two singers the turn passes round: whoever is up next stands at the
/// following position, counted round the rotation, and is never the one who is up now.
pub proof fn law_turn_passes_round(len: nat, current: int)
    requires
        len > 1,
        0 <= current < len,
    ensures
        next_position(len, Some(current)) == Some((current + 1) % (len as int)),
        next_position(len, Some(current)) != Some(current),
{
    if current + 1 == len {
        assert((current + 1) % (len as int) == 0) by (nonlinear_arith)
            requires
                current + 1 == len,
                len > 1,
        ;
    } else {
        assert((current + 1) % (len as int) == current + 1) by (nonlinear_arith)
            requires
                0 <= current + 1 < len,
        ;
    }
}

/// Somebody is up next unless the rotation is empty or the current singer is alone in it.
pub proof fn law_someone_is_up_next(len: nat, current: Option<int>)
    requires
        current matches Some(i) ==> 0 <= i < len,
    ensures
        next_position(len, current) is None <==> len == 0 || (len == 1 && current is Some),
        next_position(len, current) matches Some(i) ==> 0 <= i < len,
{
}

/// Without a current singer the first of the rotation is up next.
pub proof fn law_first_is_up_without_a_current_singer(len: nat)
    ensures
        next_position(len, None) == if len > 0 {
            Some(0int)
        } else {
            None
        },
{
}

/// Every singer's entry has their name and their own next song, whoever is current; and an entry
/// is marked exactly where its singer has the current id.
pub proof fn law_entry_shows_its_singer(
    rows: Seq<(i64, Seq<char>)>,
    songs: Seq<SongView>,
    current_id: Option<i64>,
)
    ensures
        rotation_of(rows, songs, current_id).len() == rows.len(),
        forall|i: int|
            #![trigger rotation_of(rows, songs, current_id)[i]]
            0 <= i < rows.len() ==> {
                let entry = rotation_of(rows, songs, current_id)[i];
                &&& entry.name == rows[i].1
                &&& entry.next_song_artist == songs[i].0
                &&& entry.next_song_title == songs[i].1
                &&& entry.is_current <==> current_id == Some(rows[i].0)
            },
{
}

/// The current singer stands in the last row that has the current id; there is none where no row
/// has it, or where no id is known.
pub proof fn law_current_row_is_the_last_with_the_id(
    rows: Seq<(i64, Seq<char>)>,
    current_id: Option<i64>,
)
    ensures
        match current_position(rows, current_id) {
            Some(p) => 0 <= p < rows.len() && current_id == Some(rows[p].0) && (forall|j: int|
                p < j < rows.len() ==> current_id != Some((#[trigger] rows[j]).0)),
            None => forall|j: int|
                0 <= j < rows.len() ==> current_id != Some((#[trigger] rows[j]).0),
        },
{
    if let Some(id) = current_id {
        let ids = rows.map_values(|row: (i64, Seq<char>)| row.0);
        ids.index_of_last_ensures(id);
        assert forall|j: int| 0 <= j < rows.len() implies ids[j] == (#[trigger] rows[j]).0 by {}
        if ids.index_of_last(id) is None {
            assert forall|j: int| 0 <= j < rows.len() implies current_id != Some(
                (#[trigger] rows[j]).0,
            ) by {
                assert(ids.contains(ids[j]));
            }
        }
    }
}

/// A state holds what it is put together from: the whole rotation, the current singer's entry,
/// whether a song plays, and the display limit, each as it is given.
pub proof fn law_state_holds_what_it_is_given(
    rotation: Seq<SingerView>,
    current: Option<int>,
    is_playing: bool,
    singer_count: usize,
)
    ensures
        ({
            let state = state_of(rotation, current, is_playing, singer_count);
            &&& state.rotation == rotation
            &&& state.current_singer == match current {
                Some(i) => Some(rotation[i]),
                None => None,
            }
            &&& state.next_up == match next_position(rotation.len(), current) {
                Some(i) => Some(rotation[i]),
                None => None,
            }
            &&& state.is_playing == is_playing
            &&& state.singer_count == singer_count
            &&& state.status == "ok"@
        }),
{
}

} // verus!
