//! What the launcher looks at from time to time, and when a change is told.
use crate::message::{Editable, Message};
use crate::text::{is_white_space, same_text, trim, trimmed};
use crate::text_laws::law_only_blank_text_is_trimmed_away;
use rayon::iter::{IntoParallelRefIterator, ParallelIterator};
use vstd::prelude::*;

verus! {

/// A picture, with the bytes of its pixels.
#[derive(Debug)]
pub struct ImageData {
    pub width: usize,
    pub height: usize,
    pub bytes: Vec<u8>,
}

/// What the clipboard can hold.
#[derive(Debug)]
pub enum ClipBoardContentType {
    Text(String),
    Image(ImageData),
}

/// What the clipboard holds, as a value.
pub enum Content {
    Text(Seq<char>),
    Image { width: usize, height: usize, bytes: Seq<u8> },
}

impl View for ClipBoardContentType {
    type V = Content;

    open spec fn view(&self) -> Content {
        match self {
            ClipBoardContentType::Text(text) => Content::Text(text@),
            ClipBoardContentType::Image(image) => Content::Image {
                width: image.width,
                height: image.height,
                bytes: image.bytes@,
            },
        }
    }
}

/// The value of what may be there.
pub open spec fn content_of(content: Option<ClipBoardContentType>) -> Option<Content> {
    match content {
        Some(c) => Some(c@),
        None => None,
    }
}

/// What a look at the clipboard finds, from the picture and the text that it
/// gives: the picture first, then the text unless it is blank.
pub open spec fn reading_of(image: Option<ImageData>, text: Option<String>) -> Option<
    ClipBoardContentType,
> {
    match (image, text) {
        (Some(i), _) => Some(ClipBoardContentType::Image(i)),
        (None, Some(t)) => if trimmed(t@).len() > 0 {
            Some(ClipBoardContentType::Text(t))
        } else {
            None
        },
        (None, None) => None,
    }
}

/// The content that is added to the history when the clipboard is found to hold
/// `reading`, where it last held `prev`.
pub open spec fn added(prev: Option<Content>, reading: Option<Content>) -> Option<Content> {
    if reading is Some && reading != prev {
        reading
    } else {
        None
    }
}

/// What the clipboard last held, after a look that found `reading`.
pub open spec fn last_content(prev: Option<Content>, reading: Option<Content>) -> Option<Content> {
    if added(prev, reading) is Some {
        reading
    } else {
        prev
    }
}

/// What a look at the clipboard finds.
pub fn clipboard_reading(image: Option<ImageData>, text: Option<String>) -> (reading: Option<
    ClipBoardContentType,
>)
    ensures
        reading == reading_of(image, text),
        image matches Some(picture) ==> reading == Some(ClipBoardContentType::Image(picture)),
        image is None ==> match text {
            Some(t) => if exists|i: int| 0 <= i < t@.len() && !is_white_space(#[trigger] t@[i]) {
                reading == Some(ClipBoardContentType::Text(t))
            } else {
                reading is None
            },
            None => reading is None,
        },
{
    proof {
        if text is Some {
            law_only_blank_text_is_trimmed_away(text->0@);
        }
    }
    match image {
        Some(i) => Some(ClipBoardContentType::Image(i)),
        None => match text {
            Some(t) => {
                if trim(t.as_str()).is_empty() {
                    None
                } else {
                    Some(ClipBoardContentType::Text(t))
                }
            },
            None => None,
        },
    }
}

/// Whether two rows of bytes are the same.
fn same_bytes(a: &Vec<u8>, b: &Vec<u8>) -> (same: bool)
    ensures
        same == (a@ == b@),
{
    if a.len() != b.len() {
        return false;
    }
    for i in 0..a.len()
        invariant
            a@.len() == b@.len(),
            forall|j: int| 0 <= j < i ==> a@[j] == b@[j],
    {
        if a[i] != b[i] {
            return false;
        }
    }
    assert(a@ =~= b@);
    true
}

/// The same bytes once more.
fn copy_bytes(bytes: &Vec<u8>) -> (copy: Vec<u8>)
    ensures
        copy@ == bytes@,
{
    let mut copy: Vec<u8> = Vec::new();
    for i in 0..bytes.len()
        invariant
            copy@ == bytes@.take(i as int),
    {
        copy.push(bytes[i]);
        assert(bytes@.take(i + 1) =~= bytes@.take(i as int).push(bytes@[i as int]));
    }
    assert(bytes@.take(bytes@.len() as int) =~= bytes@);
    copy
}

impl Clone for ImageData {
    fn clone(&self) -> (copy: Self)
        ensures
            copy.width == self.width,
            copy.height == self.height,
            copy.bytes@ == self.bytes@,
    {
        ImageData { width: self.width, height: self.height, bytes: copy_bytes(&self.bytes) }
    }
}

impl Clone for ClipBoardContentType {
    fn clone(&self) -> (copy: Self)
        ensures
            copy@ == self@,
    {
        match self {
            ClipBoardContentType::Text(text) => ClipBoardContentType::Text(text.clone()),
            ClipBoardContentType::Image(image) => ClipBoardContentType::Image(image.clone()),
        }
    }
}

impl ClipBoardContentType {
    /// Whether the two are the same text, or the same picture.
    pub fn same(&self, other: &ClipBoardContentType) -> (same: bool)
        ensures
            same == (self@ == other@),
    {
        match (self, other) {
            (ClipBoardContentType::Text(a), ClipBoardContentType::Text(b)) => same_text(
                a.as_str(),
                b.as_str(),
            ),
            (ClipBoardContentType::Image(a), ClipBoardContentType::Image(b)) => {
                a.width == b.width && a.height == b.height && same_bytes(&a.bytes, &b.bytes)
            },
            _ => false,
        }
    }
}

/// Takes note of a look at the clipboard: what it holds is added to the history
/// if it is not what was added last.
pub fn poll_clipboard(
    prev: &mut Option<ClipBoardContentType>,
    reading: Option<ClipBoardContentType>,
) -> (edit: Option<Editable<ClipBoardContentType>>)
    ensures
        content_of(*final(prev)) == last_content(content_of(*old(prev)), content_of(reading)),
        match edit {
            Some(Editable::Create(content)) => added(content_of(*old(prev)), content_of(reading))
                == Some(content@),
            Some(_) => false,
            None => added(content_of(*old(prev)), content_of(reading)) is None,
        },
        match reading {
            Some(content) => {
                &&& *final(prev) matches Some(last) && last@ == content@
                &&& edit is None <==> (*old(prev) matches Some(last) && last@ == content@)
                &&& edit is Some ==> (edit matches Some(Editable::Create(new)) && new@ == content@)
            },
            None => edit is None && *final(prev) == *old(prev),
        },
{
    match reading {
        None => None,
        Some(content) => {
            let known = match prev {
                Some(last) => last.same(&content),
                None => false,
            };
            if known {
                None
            } else {
                let copy = content.clone();
                *prev = Some(content);
                Some(Editable::Create(copy))
            }
        },
    }
}

/// The contents that are added to the history by a row of looks.
pub open spec fn history(readings: Seq<Option<Content>>) -> (Option<Content>, Seq<Content>)
    decreases readings.len(),
{
    if readings.len() == 0 {
        (None, Seq::empty())
    } else {
        let (prev, contents) = history(readings.drop_last());
        (
            last_content(prev, readings.last()),
            match added(prev, readings.last()) {
                Some(content) => contents.push(content),
                None => contents,
            },
        )
    }
}

/// The history never gets the same content twice in a row, and what was last
/// added is what the next look is held against.
pub proof fn law_no_content_twice_in_a_row(readings: Seq<Option<Content>>)
    ensures
        ({
            let (prev, contents) = history(readings);
            &&& prev == if contents.len() == 0 {
                None
            } else {
                Some(contents.last())
            }
            &&& forall|i: int|
                #![trigger contents[i]]
                0 < i < contents.len() ==> contents[i] != contents[i - 1]
        }),
    decreases readings.len(),
{
    if readings.len() > 0 {
        law_no_content_twice_in_a_row(readings.drop_last());
    }
}

/// The number of directories among the entries of a directory: of each entry,
/// whether it is a directory, if that could be found out.
pub open spec fn dir_count(entries: Seq<Option<bool>>) -> nat {
    entries.filter(|entry: Option<bool>| entry == Some(true)).len()
}

/// The number of directories in all of the directories.
pub open spec fn total_dirs(listings: Seq<Option<Vec<Option<bool>>>>) -> nat
    decreases listings.len(),
{
    if listings.len() == 0 {
        0
    } else {
        total_dirs(listings.drop_last()) + dirs_in(listings.last())
    }
}

/// The number of directories in a directory; one that could not be read has
/// none.
pub open spec fn dirs_in(listing: Option<Vec<Option<bool>>>) -> nat {
    match listing {
        Some(entries) => dir_count(entries@),
        None => 0,
    }
}

/// The number of directories in a directory, from its entries; a directory that
/// could not be read has none.
pub fn count_dirs_in_dir(listing: &Option<Vec<Option<bool>>>) -> (count: usize)
    ensures
        count == dirs_in(*listing),
{
    let entries = match listing {
        Some(entries) => entries,
        None => return 0,
    };
    let ghost is_dir = |entry: Option<bool>| entry == Some(true);
    let mut count: usize = 0;
    assert(entries@.take(0).filter(is_dir) =~= Seq::<Option<bool>>::empty());
    for i in 0..entries.len()
        invariant
            is_dir == (|entry: Option<bool>| entry == Some(true)),
            count == entries@.take(i as int).filter(is_dir).len(),
            count <= i,
    {
        proof {
            broadcast use Seq::lemma_filter_push;

            assert(entries@.take(i + 1) =~= entries@.take(i as int).push(entries@[i as int]));
        }
        if let Some(dir) = entries[i] {
            if dir {
                count = count + 1;
            }
        }
    }
    assert(entries@.take(entries@.len() as int) =~= entries@);
    count
}

/// Counts with rayon: `par_iter` and `map` hand every listing to
/// `count_dirs_in_dir`, and `sum` adds up what it counts. The sum fits.
#[verifier::external_body]
fn par_count(listings: &Vec<Option<Vec<Option<bool>>>>) -> (total: usize)
    requires
        total_dirs(listings@) <= usize::MAX,
    ensures
        total == total_dirs(listings@),
{
    listings.par_iter().map(|listing| count_dirs_in_dir(listing)).sum()
}

/// The number of installed apps, which are the directories in the directories
/// for apps.
pub fn count_apps(listings: &Vec<Option<Vec<Option<bool>>>>) -> (total: usize)
    requires
        total_dirs(listings@) <= usize::MAX,
    ensures
        total == total_dirs(listings@),
{
    par_count(listings)
}

/// The number of entries in all of the directories that could be read.
pub open spec fn total_entries(listings: Seq<Option<Vec<Option<bool>>>>) -> nat
    decreases listings.len(),
{
    if listings.len() == 0 {
        0
    } else {
        total_entries(listings.drop_last()) + match listings.last() {
            Some(entries) => entries@.len(),
            None => 0,
        }
    }
}

/// There are no more directories than entries, so where the entries can be
/// counted the directories can.
pub proof fn law_no_more_dirs_than_entries(listings: Seq<Option<Vec<Option<bool>>>>)
    ensures
        total_dirs(listings) <= total_entries(listings),
    decreases listings.len(),
{
    if listings.len() > 0 {
        law_no_more_dirs_than_entries(listings.drop_last());
        if let Some(entries) = listings.last() {
            entries@.lemma_filter_len(|entry: Option<bool>| entry == Some(true));
        }
    }
}

/// Takes note of the number of installed apps: a change is told.
pub fn poll_app_count(total: &mut usize, current: usize) -> (message: Option<Message>)
    ensures
        *final(total) == current,
        message == if *old(total) != current {
            Some(Message::UpdateApps)
        } else {
            None
        },
{
    if *total != current {
        *total = current;
        Some(Message::UpdateApps)
    } else {
        None
    }
}

/// Takes note of whether the system is in dark mode: a change is told.
pub fn poll_theme_mode(prev_dark: &mut bool, current: bool) -> (message: Option<Message>)
    ensures
        *final(prev_dark) == current,
        message == if *old(prev_dark) != current {
            Some(Message::ThemeModeChanged(current))
        } else {
            None
        },
{
    if *prev_dark != current {
        *prev_dark = current;
        Some(Message::ThemeModeChanged(current))
    } else {
        None
    }
}

/// The milliseconds between two looks at the clipboard.
pub const CLIPBOARD_PAUSE_MILLIS: u64 = 100;

/// The milliseconds between two looks for messages from outside the window.
pub const RECIPIENT_PAUSE_MILLIS: u64 = 100;

/// The milliseconds between two counts of the installed apps.
pub const APP_COUNT_PAUSE_MILLIS: u64 = 1000;

/// The seconds between two looks at whether the system is in dark mode.
pub const THEME_MODE_PAUSE: u64 = 2;

/// The seconds between two looks at the listener for key presses.
pub const EVENT_TAP_PAUSE: u64 = 5;

/// The seconds between two updates of the events.
pub const EVENTS_PAUSE: u64 = 120;

/// The seconds between two steps of the upkeep.
pub const UPKEEP_PAUSE: u64 = 30;

/// What the upkeep does next.
#[derive(Clone, Copy, Debug, PartialEq, Eq, Structural)]
pub enum Upkeep {
    /// Look for a newer version.
    CheckVersion,
    /// Save the rankings.
    SaveRankings,
}

impl Upkeep {
    /// The step after this one.
    pub open spec fn next(self) -> Upkeep {
        match self {
            Upkeep::CheckVersion => Upkeep::SaveRankings,
            Upkeep::SaveRankings => Upkeep::CheckVersion,
        }
    }

    /// What this step tells, where `newer` says that there is a newer version.
    pub open spec fn told(self, check_for_updates: bool, newer: bool) -> Option<Message> {
        match self {
            Upkeep::CheckVersion => if check_for_updates && newer {
                Some(Message::UpdateAvailable)
            } else {
                None
            },
            Upkeep::SaveRankings => Some(Message::SaveRanking),
        }
    }

    /// Whether this step has to find out if there is a newer version.
    pub fn asks_for_version(self, check_for_updates: bool) -> (asks: bool)
        ensures
            asks == (self == Upkeep::CheckVersion && check_for_updates),
            !asks ==> self.told(check_for_updates, true) == self.told(check_for_updates, false),
    {
        match self {
            Upkeep::CheckVersion => check_for_updates,
            Upkeep::SaveRankings => false,
        }
    }

    /// Does this step: gives the next one, and the message.
    pub fn step(self, check_for_updates: bool, newer: bool) -> (step: (Upkeep, Option<Message>))
        ensures
            step.0 == self.next(),
            step.1 == self.told(check_for_updates, newer),
    {
        match self {
            Upkeep::CheckVersion => {
                let message = if check_for_updates && newer {
                    Some(Message::UpdateAvailable)
                } else {
                    None
                };
                (Upkeep::SaveRankings, message)
            },
            Upkeep::SaveRankings => (Upkeep::CheckVersion, Some(Message::SaveRanking)),
        }
    }
}

/// The upkeep looks for a newer version once a minute, and saves the rankings
/// between two looks.
pub proof fn law_upkeep_takes_a_minute(upkeep: Upkeep)
    ensures
        upkeep.next() != upkeep,
        upkeep.next().next() == upkeep,
        2 * UPKEEP_PAUSE == 60,
{
}

/// An update is told only if the user wants to hear of it and there is one.
pub proof fn law_updates_are_told_on_request(upkeep: Upkeep, check_for_updates: bool, newer: bool)
    requires
        upkeep.told(check_for_updates, newer) == Some(Message::UpdateAvailable),
    ensures
        check_for_updates,
        newer,
{
}

/// A picture on the clipboard is read as that picture, whatever text there is;
/// without one, a text with a character that is not white space is read as that
/// very text, and any other is not read.
pub proof fn law_what_is_read_from_the_clipboard(
    image: Option<ImageData>,
    text: Option<String>,
    i: int,
)
    ensures
        image matches Some(picture) ==> reading_of(image, text) == Some(
            ClipBoardContentType::Image(picture),
        ),
        image is None ==> match text {
            Some(t) => {
                &&& 0 <= i < t@.len() && !is_white_space(t@[i]) ==> reading_of(image, text) == Some(
                    ClipBoardContentType::Text(t),
                )
                &&& (forall|j: int| 0 <= j < t@.len() ==> is_white_space(#[trigger] t@[j]))
                    ==> reading_of(image, text) is None
            },
            None => reading_of(image, text) is None,
        },
{
    if let Some(t) = text {
        law_only_blank_text_is_trimmed_away(t@);
    }
}

/// What a look finds is added unless it is what was added last, and is what the
/// next look is held against; a look that finds nothing changes nothing.
pub proof fn law_new_content_is_added(prev: Option<Content>, content: Content)
    ensures
        added(prev, Some(content)) == if prev == Some(content) {
            None
        } else {
            Some(content)
        },
        last_content(prev, Some(content)) == Some(content),
        added(prev, None) is None,
        last_content(prev, None) == prev,
{
}

/// After a look that finds some content the history ends with it: it is put
/// behind all that was there, or it stood there already. A look that finds
/// nothing leaves the history as it was.
pub proof fn law_history_ends_with_what_was_found(readings: Seq<Option<Content>>, content: Content)
    ensures
        ({
            let before = history(readings).1;
            let after = history(readings.push(Some(content))).1;
            &&& after == if before.len() > 0 && before.last() == content {
                before
            } else {
                before.push(content)
            }
            &&& after.last() == content
            &&& history(readings.push(None)) == history(readings)
            &&& history(Seq::empty()).1.len() == 0
        }),
{
    law_no_content_twice_in_a_row(readings);
    assert(readings.push(Some(content)).drop_last() =~= readings);
    assert(readings.push(None).drop_last() =~= readings);
}

/// Two contents are the same exactly if they are the same text, or pictures of
/// the same size with the same bytes.
pub proof fn law_same_content(a: ClipBoardContentType, b: ClipBoardContentType)
    ensures
        a@ == b@ <==> match (a, b) {
            (ClipBoardContentType::Text(s), ClipBoardContentType::Text(t)) => s@ == t@,
            (ClipBoardContentType::Image(p), ClipBoardContentType::Image(q)) => p.width == q.width
                && p.height == q.height && p.bytes@ == q.bytes@,
            _ => false,
        },
        content_of(Some(a)) == Some(a@),
        content_of(None) is None,
{
}

/// An entry that is a directory counts one, and any other entry none.
pub proof fn law_directories_count_one(entries: Seq<Option<bool>>, entry: Option<bool>)
    ensures
        dir_count(Seq::empty()) == 0,
        dir_count(entries.push(entry)) == dir_count(entries) + if entry == Some(true) {
            1int
        } else {
            0int
        },
{
    broadcast use Seq::lemma_filter_push;

    let is_dir = |e: Option<bool>| e == Some(true);
    assert(Seq::<Option<bool>>::empty().filter(is_dir).len() == 0) by {
        Seq::<Option<bool>>::empty().lemma_filter_len(is_dir);
    }
}

/// A directory more adds the directories in it to the total, or none if it could
/// not be read.
pub proof fn law_totals_add_up(
    listings: Seq<Option<Vec<Option<bool>>>>,
    listing: Option<Vec<Option<bool>>>,
)
    ensures
        total_dirs(Seq::empty()) == 0,
        total_dirs(listings.push(listing)) == total_dirs(listings) + match listing {
            Some(entries) => dir_count(entries@),
            None => 0,
        },
{
    assert(listings.push(listing).drop_last() =~= listings);
}

/// The rankings are saved at every other step, whatever the settings say; the
/// steps between tell an update exactly if the user wants to hear of one and
/// there is one.
pub proof fn law_what_the_upkeep_tells(upkeep: Upkeep, check_for_updates: bool, newer: bool)
    ensures
        upkeep == Upkeep::SaveRankings ==> upkeep.told(check_for_updates, newer) == Some(
            Message::SaveRanking,
        ),
        upkeep == Upkeep::CheckVersion ==> upkeep.told(check_for_updates, newer) == if
            check_for_updates && newer {
            Some(Message::UpdateAvailable)
        } else {
            None
        },
{
}

} // verus!
