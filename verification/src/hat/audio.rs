//! Mixer levels of the speaker and the microphone, by way of `amixer`.
//!
//! Nothing here starts a process or reads a file. The functions say which
//! arguments `amixer` is given and what its output means; whoever runs it hands
//! the outcome back.

use vstd::prelude::*;
use vstd::string::*;
use vstd::utf8::*;

use crate::config::AudioConfig;
use crate::text;

verus! {

// ---------------------------------------------------------------------------
// Errors
// ---------------------------------------------------------------------------

/// Errors from mixer operations.
#[derive(Debug)]
pub enum AudioError {
    /// `amixer` ran and failed.
    Command(String),
    /// The output of `amixer` holds no level.
    Parse(String),
    /// `amixer` could not be run.
    Io(String),
}

/// An `AudioError` with its text as a sequence of characters.
pub enum AudioErrorView {
    Command(Seq<char>),
    Parse(Seq<char>),
    Io(Seq<char>),
}

impl View for AudioError {
    type V = AudioErrorView;

    open spec fn view(&self) -> AudioErrorView {
        match self {
            AudioError::Command(s) => AudioErrorView::Command(s@),
            AudioError::Parse(s) => AudioErrorView::Parse(s@),
            AudioError::Io(s) => AudioErrorView::Io(s@),
        }
    }
}

impl Clone for AudioError {
    fn clone(&self) -> (r: Self)
        ensures
            r == *self,
    {
        match self {
            AudioError::Command(s) => AudioError::Command(s.clone()),
            AudioError::Parse(s) => AudioError::Parse(s.clone()),
            AudioError::Io(s) => AudioError::Io(s.clone()),
        }
    }
}

impl AudioErrorView {
    /// The message that a client is shown.
    pub open spec fn message(self) -> Seq<char> {
        match self {
            AudioErrorView::Command(s) => "amixer returned an error: "@ + s,
            AudioErrorView::Parse(s) => "failed to parse amixer output: "@ + s,
            AudioErrorView::Io(s) => "I/O error invoking amixer: "@ + s,
        }
    }
}

impl AudioError {
    /// The message that a client is shown.
    pub fn message(&self) -> (r: String)
        ensures
            r@ == self@.message(),
    {
        match self {
            AudioError::Command(s) => "amixer returned an error: ".to_owned().concat(s.as_str()),
            AudioError::Parse(s) => "failed to parse amixer output: ".to_owned().concat(s.as_str()),
            AudioError::Io(s) => "I/O error invoking amixer: ".to_owned().concat(s.as_str()),
        }
    }
}

/// A level or the error that stands in its place, over texts as sequences.
pub open spec fn outcome_view<T>(r: Result<T, AudioError>) -> Result<T, AudioErrorView> {
    match r {
        Ok(x) => Ok(x),
        Err(e) => Err(e@),
    }
}

/// Abstraction over mixer control.
///
/// The calls block, so they belong on a thread of their own.
pub trait AlsaControl: Send + Sync {
    /// Return the current output volume as a percentage (0-100).
    fn get_volume_pct(&self) -> Result<u8, AudioError>;

    /// Set the output volume to `pct` percent (0-100).
    fn set_volume_pct(&self, pct: u8) -> Result<(), AudioError>;

    /// Return the current microphone capture gain as a percentage (0-100).
    fn get_mic_gain_pct(&self) -> Result<u8, AudioError>;

    /// Set the microphone capture gain to `pct` percent (0-100).
    fn set_mic_gain_pct(&self, pct: u8) -> Result<(), AudioError>;
}

// ---------------------------------------------------------------------------
// Cards
// ---------------------------------------------------------------------------

/// The card index that a header line such as
/// ` 1 [Device         ]: USB-Audio - USB PnP Sound Device` starts with: a byte
/// in decimal, a space, and a bracket as the next thing that is not blank.
pub open spec fn card_header_of(line: Seq<char>) -> Option<u8> {
    let trimmed = text::trim_start_of(line);
    match text::first_at(trimmed, ' ', 0) {
        Some(i) => {
            let rest = text::trim_start_of(trimmed.skip(i + 1));
            if rest.len() > 0 && rest[0] == '[' {
                match text::parse_of(trimmed.take(i), 10, 255) {
                    Some(n) => Some(n as u8),
                    None => None,
                }
            } else {
                None
            }
        },
        None => None,
    }
}

/// The card that line `i` belongs to: that of the last header up to it.
pub open spec fn card_of_line(lines: Seq<Seq<char>>, i: int) -> Option<u8>
    decreases i + 1,
{
    if i < 0 || i >= lines.len() {
        None
    } else {
        match card_header_of(lines[i]) {
            Some(c) => Some(c),
            None => card_of_line(lines, i - 1),
        }
    }
}

/// Line `i` belongs to a card and, in lower case, holds `needle`.
pub open spec fn line_names_card(
    lines: Seq<Seq<char>>,
    lowered: Seq<Seq<char>>,
    needle: Seq<char>,
    i: int,
) -> bool {
    card_of_line(lines, i) is Some && text::contains_text(lowered[i], needle)
}

/// The card of the first line from `from` on that names one by `needle`.
pub open spec fn first_card_named(
    lines: Seq<Seq<char>>,
    lowered: Seq<Seq<char>>,
    needle: Seq<char>,
    from: int,
) -> Option<u8>
    decreases lines.len() - from,
{
    if from < 0 || from >= lines.len() {
        None
    } else if line_names_card(lines, lowered, needle, from) {
        card_of_line(lines, from)
    } else {
        first_card_named(lines, lowered, needle, from + 1)
    }
}

/// The card that `needle` names in a list of lines, with each line given in
/// lower case too. An empty needle names none.
pub open spec fn card_in_lines(
    lines: Seq<Seq<char>>,
    lowered: Seq<Seq<char>>,
    needle: Seq<char>,
) -> Option<u8> {
    if needle.len() == 0 {
        None
    } else {
        first_card_named(lines, lowered, needle, 0)
    }
}

/// The texts of `lines` in lower case.
pub open spec fn lower_lines(lines: Seq<Seq<char>>) -> Seq<Seq<char>> {
    Seq::new(lines.len(), |i: int| text::lower_of(lines[i]))
}

/// The card that `name` names in a card listing, whatever the letter case.
pub open spec fn card_named(cards: Seq<char>, name: Seq<char>) -> Option<u8> {
    card_in_lines(
        text::lines_of(cards),
        lower_lines(text::lines_of(cards)),
        text::lower_of(text::trim_of(name)),
    )
}

/// The card to use: the explicit one, else the one that the listing names, else
/// none (the default card). A listing that could not be read names none.
pub open spec fn card_choice(
    explicit: Option<u8>,
    name: Seq<char>,
    cards: Option<&str>,
) -> Option<u8> {
    match explicit {
        Some(c) => Some(c),
        None => match cards {
            Some(text) => card_named(text@, name),
            None => None,
        },
    }
}

/// The card index that a header line starts with.
fn card_header(line: &str) -> (r: Option<u8>)
    ensures
        r == card_header_of(line@),
{
    let trimmed = text::trim_start(line);
    let chars = text::chars_of(trimmed);
    match text::find_char(&chars, ' ', 0) {
        Some(i) => {
            proof {
                text::lemma_first_at(trimmed@, ' ', 0);
            }
            let index = trimmed.substring_char(0, i);
            let rest = text::trim_start(trimmed.substring_char(i + 1, chars.len()));
            assert(index@ =~= trimmed@.take(i as int));
            assert(trimmed@.subrange(i + 1, trimmed@.len() as int) =~= trimmed@.skip(i + 1));
            if rest.unicode_len() > 0 && rest.get_char(0) == '[' {
                match text::parse_unsigned(index, 10, 255) {
                    Some(n) => Some(n as u8),
                    None => None,
                }
            } else {
                None
            }
        },
        None => None,
    }
}

/// Production mixer control backed by `amixer`.
///
/// `amixer -c <card_index> sset "<control>" <pct>%` works on any system with the
/// `alsa-utils` package.
#[derive(Debug)]
pub struct AmixerControl {
    /// Explicit card index for audio output; `None` = resolve by name.
    pub output_card_index: Option<u8>,
    /// Name fragment matched against the card listing for the output card.
    pub output_card_name: String,
    /// Mixer control name for output volume.
    pub output_control: String,
    /// Explicit card index for audio input; `None` = resolve by name.
    pub input_card_index: Option<u8>,
    /// Name fragment matched against the card listing for the input card.
    pub input_card_name: String,
    /// Capture controls driven for microphone gain, in priority order. Each one
    /// that exists on the card is set; the first that yields a level is read.
    pub input_controls: Vec<String>,
}

fn copied(list: &Vec<String>) -> (r: Vec<String>)
    ensures
        r@ == list@,
{
    let mut out: Vec<String> = Vec::new();
    let mut i: usize = 0;
    while i < list.len()
        invariant
            i <= list@.len(),
            out@ == list@.take(i as int),
        decreases list@.len() - i,
    {
        out.push(list[i].clone());
        assert(list@.take(i + 1) =~= list@.take(i as int).push(list@[i as int]));
        i = i + 1;
    }
    assert(list@.take(list@.len() as int) =~= list@);
    out
}

impl AmixerControl {
    /// The mixer control that a configuration describes.
    pub fn new(config: &AudioConfig) -> (r: AmixerControl)
        ensures
            r.output_card_index == config.output_card_index,
            r.output_card_name@ == config@.output_card_name,
            r.output_control@ == config@.output_control,
            r.input_card_index == config.input_card_index,
            r.input_card_name@ == config@.input_card_name,
            text::texts(r.input_controls@) == config@.input_controls,
    {
        AmixerControl {
            output_card_index: config.output_card_index,
            output_card_name: config.output_card_name.clone(),
            output_control: config.output_control.clone(),
            input_card_index: config.input_card_index,
            input_card_name: config.input_card_name.clone(),
            input_controls: copied(&config.input_controls),
        }
    }

    /// Resolve a card index: the explicit one, else a name match that ignores
    /// case in the card listing, else `None` (the default card).
    ///
    /// `cards` is the content of the card listing, `None` if it could not be
    /// read. It is not looked at when an explicit index is given.
    pub fn resolve_card_index(
        explicit: Option<u8>,
        name_match: &str,
        cards: Option<&str>,
    ) -> (r: Option<u8>)
        ensures
            r == card_choice(explicit, name_match@, cards),
    {
        if explicit.is_some() {
            return explicit;
        }
        match cards {
            Some(text) => Self::find_card(text, name_match),
            None => None,
        }
    }

    /// Find the first card in a card listing whose entry contains `name_match`,
    /// whatever the letter case. An entry is a header line and the lines that
    /// follow it up to the next header.
    pub fn find_card(cards: &str, name_match: &str) -> (r: Option<u8>)
        ensures
            r == card_named(cards@, name_match@),
    {
        let needle = text::to_lowercase(text::trim(name_match));
        let all = text::lines(cards);
        let mut lowered: Vec<String> = Vec::new();
        let mut i: usize = 0;
        while i < all.len()
            invariant
                i <= all.len(),
                lowered.len() == i,
                text::texts(all@) == text::lines_of(cards@),
                forall|k: int| 0 <= k < i ==> (#[trigger] lowered@[k])@ == text::lower_of(all@[k]@),
            decreases all.len() - i,
        {
            lowered.push(text::to_lowercase(all[i].as_str()));
            i = i + 1;
        }
        assert(text::texts(lowered@) =~= lower_lines(text::lines_of(cards@))) by {
            assert forall|k: int| 0 <= k < lowered@.len() implies text::texts(lowered@)[k]
                == lower_lines(text::lines_of(cards@))[k] by {
                assert(lowered@[k]@ == text::lower_of(all@[k]@));
                assert(text::texts(all@)[k] == all@[k]@);
            }
        }
        Self::find_card_in(&all, &lowered, needle.as_str())
    }

    /// Find the first card that `needle` names, given the lines of the listing
    /// and the same lines in lower case.
    pub fn find_card_in(lines: &Vec<String>, lowered: &Vec<String>, needle: &str) -> (r: Option<u8>)
        requires
            lines.len() == lowered.len(),
        ensures
            r == card_in_lines(text::texts(lines@), text::texts(lowered@), needle@),
    {
        if needle.is_empty() {
            return None;
        }
        let mut current: Option<u8> = None;
        let mut i: usize = 0;
        while i < lines.len()
            invariant
                lines.len() == lowered.len(),
                needle@.len() > 0,
                i <= lines.len(),
                current == card_of_line(text::texts(lines@), i - 1),
                first_card_named(text::texts(lines@), text::texts(lowered@), needle@, 0)
                    == first_card_named(
                    text::texts(lines@),
                    text::texts(lowered@),
                    needle@,
                    i as int,
                ),
            decreases lines.len() - i,
        {
            let header = card_header(lines[i].as_str());
            if header.is_some() {
                current = header;
            }
            assert(text::texts(lines@)[i as int] == lines@[i as int]@);
            assert(current == card_of_line(text::texts(lines@), i as int));
            assert(text::texts(lowered@)[i as int] == lowered@[i as int]@);
            if current.is_some() && text::contains(lowered[i].as_str(), needle) {
                return current;
            }
            i = i + 1;
        }
        None
    }

    /// The output card for this call, given the card listing.
    pub fn output_card(&self, cards: Option<&str>) -> (r: Option<u8>)
        ensures
            r == card_choice(self.output_card_index, self.output_card_name@, cards),
    {
        Self::resolve_card_index(self.output_card_index, self.output_card_name.as_str(), cards)
    }

    /// The input card for this call, given the card listing.
    pub fn input_card(&self, cards: Option<&str>) -> (r: Option<u8>)
        ensures
            r == card_choice(self.input_card_index, self.input_card_name@, cards),
    {
        Self::resolve_card_index(self.input_card_index, self.input_card_name.as_str(), cards)
    }
}

// ---------------------------------------------------------------------------
// Controls
// ---------------------------------------------------------------------------

/// The name between the first two single quotes of a line such as
/// `Simple mixer control 'Mic',0`.
pub open spec fn quoted_name(line: Seq<char>) -> Option<Seq<char>> {
    match text::first_at(line, '\'', 0) {
        Some(i) => match text::first_at(line, '\'', i + 1) {
            Some(j) => Some(line.subrange(i + 1, j)),
            None => None,
        },
        None => None,
    }
}

/// The quoted names of the lines, in order, without the lines that have none.
pub open spec fn quoted_names(lines: Seq<Seq<char>>) -> Seq<Seq<char>>
    decreases lines.len(),
{
    if lines.len() == 0 {
        Seq::empty()
    } else {
        match quoted_name(lines.last()) {
            Some(name) => quoted_names(lines.drop_last()).push(name),
            None => quoted_names(lines.drop_last()),
        }
    }
}

/// The control names that a control listing holds.
pub open spec fn control_names_of(listing: Seq<char>) -> Seq<Seq<char>> {
    quoted_names(text::lines_of(listing))
}

/// The first of the available names from `from` on that is `want`, whatever the
/// case of its letters `A`-`Z`.
pub open spec fn available_as(want: Seq<char>, available: Seq<Seq<char>>, from: int) -> Option<
    Seq<char>,
>
    decreases available.len() - from,
{
    if from < 0 || from >= available.len() {
        None
    } else if text::same_but_ascii_case(available[from], want) {
        Some(available[from])
    } else {
        available_as(want, available, from + 1)
    }
}

/// The configured names that are available, in the order in which they are
/// configured, each written as the card writes it.
pub open spec fn selected(configured: Seq<Seq<char>>, available: Seq<Seq<char>>) -> Seq<Seq<char>>
    decreases configured.len(),
{
    if configured.len() == 0 {
        Seq::empty()
    } else {
        match available_as(configured.last(), available, 0) {
            Some(have) => selected(configured.drop_last(), available).push(have),
            None => selected(configured.drop_last(), available),
        }
    }
}

/// The available names as a reader is shown them.
pub open spec fn available_text(card: Option<u8>, names: Seq<Seq<char>>) -> Seq<char> {
    if names.len() == 0 {
        match card {
            Some(i) => "(no controls found on card "@ + text::decimal_of(i as nat) + ")"@,
            None => "(no controls found on default card)"@,
        }
    } else {
        text::joined(names, ", "@)
    }
}

/// The error that says that none of the configured capture controls exist.
pub open spec fn no_mic_control(
    configured: Seq<Seq<char>>,
    card: Option<u8>,
    available: Seq<Seq<char>>,
) -> AudioErrorView {
    none_of_these(text::debug_list_text(configured), card, available)
}

/// The same, given how the configured controls are written.
pub open spec fn none_of_these(
    configured: Seq<char>,
    card: Option<u8>,
    available: Seq<Seq<char>>,
) -> AudioErrorView {
    AudioErrorView::Command(
        "none of the configured mic controls "@ + configured
            + " exist on card "@ + text::decimal_or(card, "(default)"@) + "; available: "@ + (
        if available.len() == 0 {
            "(none)"@
        } else {
            text::joined(available, ", "@)
        }),
    )
}

/// A card index in decimal, or `(default)`.
fn card_text(card: Option<u8>) -> (r: String)
    ensures
        r@ == text::decimal_or(card, "(default)"@),
{
    match card {
        Some(i) => text::decimal(i as u64),
        None => "(default)".to_owned(),
    }
}

impl AmixerControl {
    /// Parse control names from a control listing.
    ///
    /// Lines look like `Simple mixer control 'Mic',0`; the quoted name is
    /// returned (`["Master", "Capture", "Mic"]`).
    pub fn parse_control_names(listing: &str) -> (r: Vec<String>)
        ensures
            text::texts(r@) == control_names_of(listing@),
    {
        let all = text::lines(listing);
        let ghost whole = text::texts(all@);
        let mut out: Vec<String> = Vec::new();
        let mut i: usize = 0;
        assert(text::texts(out@) =~= quoted_names(whole.take(0)));
        while i < all.len()
            invariant
                i <= all.len(),
                whole == text::texts(all@),
                text::texts(out@) == quoted_names(whole.take(i as int)),
            decreases all.len() - i,
        {
            let ghost before = out@;
            assert(whole.take(i + 1).drop_last() =~= whole.take(i as int));
            assert(whole[i as int] == all@[i as int]@);
            let line = all[i].as_str();
            let chars = text::chars_of(line);
            if let Some(start) = text::find_char(&chars, '\'', 0) {
                proof {
                    text::lemma_first_at(line@, '\'', 0);
                    text::lemma_first_at(line@, '\'', start + 1);
                }
                if let Some(end) = text::find_char(&chars, '\'', start + 1) {
                    out.push(line.substring_char(start + 1, end).to_owned());
                    assert(text::texts(out@) =~= text::texts(before).push(
                        line@.subrange(start + 1, end as int),
                    ));
                }
            }
            i = i + 1;
        }
        assert(whole.take(all@.len() as int) =~= whole);
        out
    }

    /// Configured controls that exist on the card, whatever the case of their
    /// letters, in configured order and written as the card writes them.
    pub fn select_controls(configured: &Vec<String>, available: &Vec<String>) -> (r: Vec<String>)
        ensures
            text::texts(r@) == selected(text::texts(configured@), text::texts(available@)),
    {
        let ghost want = text::texts(configured@);
        let ghost have = text::texts(available@);
        let mut out: Vec<String> = Vec::new();
        let mut i: usize = 0;
        assert(text::texts(out@) =~= selected(want.take(0), have));
        while i < configured.len()
            invariant
                i <= configured.len(),
                want == text::texts(configured@),
                have == text::texts(available@),
                text::texts(out@) == selected(want.take(i as int), have),
            decreases configured.len() - i,
        {
            let ghost before = out@;
            assert(want.take(i + 1).drop_last() =~= want.take(i as int));
            assert(want[i as int] == configured@[i as int]@);
            let mut j: usize = 0;
            while j < available.len() && !text::eq_ignore_ascii_case(
                available[j].as_str(),
                configured[i].as_str(),
            )
                invariant
                    i < configured.len(),
                    j <= available.len(),
                    have == text::texts(available@),
                    available_as(configured@[i as int]@, have, 0) == available_as(
                        configured@[i as int]@,
                        have,
                        j as int,
                    ),
                decreases available.len() - j,
            {
                assert(have[j as int] == available@[j as int]@);
                j = j + 1;
            }
            if j < available.len() {
                assert(have[j as int] == available@[j as int]@);
                out.push(available[j].clone());
                assert(text::texts(out@) =~= text::texts(before).push(have[j as int]));
            }
            i = i + 1;
        }
        assert(want.take(configured@.len() as int) =~= want);
        out
    }

    /// Human-readable list of a card's controls, for error messages.
    pub fn available_controls(card_index: Option<u8>, names: &Vec<String>) -> (r: String)
        ensures
            r@ == available_text(card_index, text::texts(names@)),
            names@.len() == 0 && card_index is None ==> r@
                == "(no controls found on default card)"@,
            names@.len() == 0 ==> (card_index matches Some(i) ==> r@
                == "(no controls found on card "@ + text::decimal_of(i as nat) + ")"@),
            names@.len() > 0 ==> r@ == text::joined(text::texts(names@), ", "@),
    {
        if names.is_empty() {
            match card_index {
                Some(i) => "(no controls found on card ".to_owned().concat(
                    text::decimal(i as u64).as_str(),
                ).concat(")"),
                None => "(no controls found on default card)".to_owned(),
            }
        } else {
            text::join(names, ", ")
        }
    }

    /// Error describing that none of the configured mic controls exist on the
    /// card, listing what the card actually offers.
    pub fn no_mic_control_error(&self, card: Option<u8>, available: &Vec<String>) -> (r: AudioError)
        ensures
            r@ == no_mic_control(
                text::texts(self.input_controls@),
                card,
                text::texts(available@),
            ),
    {
        Self::none_of_these_error(
            text::debug_list(&self.input_controls).as_str(),
            card,
            available,
        )
    }

    /// The same error, given how the configured controls are written.
    pub fn none_of_these_error(configured: &str, card: Option<u8>, available: &Vec<String>) -> (r:
        AudioError)
        ensures
            r@ == none_of_these(configured@, card, text::texts(available@)),
    {
        let offered = if available.is_empty() {
            "(none)".to_owned()
        } else {
            text::join(available, ", ")
        };
        AudioError::Command(
            "none of the configured mic controls ".to_owned().concat(configured).concat(
                " exist on card ",
            ).concat(card_text(card).as_str()).concat("; available: ").concat(offered.as_str()),
        )
    }
}

// ---------------------------------------------------------------------------
// Levels
// ---------------------------------------------------------------------------

/// The highest level.
pub const LEVEL_MAX: u8 = 100;

/// The `N` of a token `[N%]` that starts at place `i` of a line: a decimal
/// numeral, with or without blanks around it.
pub open spec fn level_at(line: Seq<char>, i: int) -> Option<Seq<char>> {
    if 0 <= i < line.len() && line[i] == '[' {
        match text::first_at(line, '%', i) {
            Some(j) => {
                let level = text::trim_of(line.subrange(i + 1, j));
                if j + 1 < line.len() && line[j + 1] == ']' && text::is_numeral(level, 10) {
                    Some(level)
                } else {
                    None
                }
            },
            None => None,
        }
    } else {
        None
    }
}

/// The first level of a line from place `from` on.
pub open spec fn level_in(line: Seq<char>, from: int) -> Option<Seq<char>>
    decreases line.len() - from,
{
    if from < 0 || from >= line.len() {
        None
    } else {
        match level_at(line, from) {
            Some(level) => Some(level),
            None => level_in(line, from + 1),
        }
    }
}

/// The first level in the lines from `from` on.
pub open spec fn first_level(lines: Seq<Seq<char>>, from: int) -> Option<Seq<char>>
    decreases lines.len() - from,
{
    if from < 0 || from >= lines.len() {
        None
    } else {
        match level_in(lines[from], 0) {
            Some(level) => Some(level),
            None => first_level(lines, from + 1),
        }
    }
}

/// The first level in an output of `amixer`.
pub open spec fn shown_level(output: Seq<char>) -> Option<Seq<char>> {
    first_level(text::lines_of(output), 0)
}

/// The level that an output of `amixer` shows. It is a percentage, so no more
/// than 100.
pub open spec fn level_of(output: Seq<char>) -> Result<u8, AudioErrorView> {
    match shown_level(output) {
        Some(level) => match text::parse_of(level, 10, LEVEL_MAX as int) {
            Some(n) => Ok(n as u8),
            None => Err(
                AudioErrorView::Parse(
                    "could not parse percentage '"@ + level + "' from amixer output"@,
                ),
            ),
        },
        None => Err(AudioErrorView::Parse("no percentage found in amixer output: "@ + output)),
    }
}

/// The first level of a line.
fn find_level(line: &str) -> (r: Option<String>)
    ensures
        match r {
            Some(level) => level_in(line@, 0) == Some(level@),
            None => level_in(line@, 0) is None,
        },
{
    let chars = text::chars_of(line);
    let mut i: usize = 0;
    while i < chars.len()
        invariant
            chars@ == line@,
            i <= chars.len(),
            level_in(line@, 0) == level_in(line@, i as int),
        decreases chars.len() - i,
    {
        if chars[i] == '[' {
            if let Some(j) = text::find_char(&chars, '%', i) {
                proof {
                    text::lemma_first_at(line@, '%', i as int);
                }
                let level = text::trim(line.substring_char(i + 1, j));
                if j + 1 < chars.len() && chars[j + 1] == ']' && text::is_decimal(level) {
                    return Some(level.to_owned());
                }
            }
        }
        i = i + 1;
    }
    None
}

impl AmixerControl {
    /// Parse the current percentage from the output of `amixer get`.
    ///
    /// Looks for the first `[N%]` token in the output, as in
    /// `  Front Left: Playback 84 [84%] ...`, whatever other brackets stand before
    /// it.
    pub fn parse_pct(output: &str) -> (r: Result<u8, AudioError>)
        ensures
            outcome_view(r) == level_of(output@),
            r matches Ok(pct) ==> pct <= 100,
    {
        let all = text::lines(output);
        let ghost whole = text::texts(all@);
        let mut i: usize = 0;
        while i < all.len()
            invariant
                i <= all.len(),
                whole == text::texts(all@),
                whole == text::lines_of(output@),
                first_level(whole, 0) == first_level(whole, i as int),
            decreases all.len() - i,
        {
            assert(whole[i as int] == all@[i as int]@);
            if let Some(level) = find_level(all[i].as_str()) {
                return match text::parse_unsigned(level.as_str(), 10, LEVEL_MAX as u64) {
                    Some(n) => Ok(n as u8),
                    None => Err(
                        AudioError::Parse(
                            "could not parse percentage '".to_owned().concat(
                                level.as_str(),
                            ).concat("' from amixer output"),
                        ),
                    ),
                };
            }
            i = i + 1;
        }
        Err(
            AudioError::Parse(
                "no percentage found in amixer output: ".to_owned().concat(output),
            ),
        )
    }
}

// ---------------------------------------------------------------------------
// Running amixer
// ---------------------------------------------------------------------------

/// What came of one attempt to run `amixer`.
#[derive(Debug)]
pub enum CommandOutcome {
    /// It could not be started; the text says why.
    Failed(String),
    /// It ran to its end.
    Exited { success: bool, stdout: Vec<u8>, stderr: Vec<u8> },
}

/// What to do once `amixer` has been run.
#[derive(Debug)]
pub enum AmixerStep {
    /// Nothing more: this is what came of it.
    Finished(Result<String, AudioError>),
    /// It failed with this text on its error stream. List the controls of the
    /// card, so that `amixer_error` can say which ones there are.
    ListControls(String),
}

/// The arguments that select a card, before those of the command.
pub open spec fn card_args(card: Option<u8>) -> Seq<Seq<char>> {
    match card {
        Some(i) => seq!["-c"@, text::decimal_of(i as nat)],
        None => Seq::empty(),
    }
}

/// The controls that a run of the listing command shows: none if it could not
/// be run.
pub open spec fn listed_controls(listing: CommandOutcome) -> Seq<Seq<char>> {
    match listing {
        CommandOutcome::Exited { success, stdout, stderr } => control_names_of(
            text::text_of_bytes(stdout@),
        ),
        CommandOutcome::Failed(_) => Seq::empty(),
    }
}

/// The error for a run that failed, with the controls that the card has.
pub open spec fn amixer_failure(
    card: Option<u8>,
    stderr: Seq<char>,
    names: Seq<Seq<char>>,
) -> AudioErrorView {
    AudioErrorView::Command(
        stderr + "Available controls on card "@ + text::decimal_or(card, "(default)"@) + ": "@
            + available_text(card, names),
    )
}

impl AmixerControl {
    /// The arguments of `amixer`: `-c <card_index>` when there is one, and then
    /// the given ones.
    pub fn amixer_args(card_index: Option<u8>, args: &Vec<String>) -> (r: Vec<String>)
        ensures
            text::texts(r@) == card_args(card_index) + text::texts(args@),
            card_index is None ==> text::texts(r@) == text::texts(args@),
            card_index matches Some(i) ==> text::texts(r@) == seq![
                "-c"@,
                text::decimal_of(i as nat),
            ] + text::texts(args@),
    {
        let mut out: Vec<String> = Vec::new();
        if let Some(i) = card_index {
            out.push("-c".to_owned());
            out.push(text::decimal(i as u64));
        }
        assert(text::texts(out@) =~= card_args(card_index));
        let mut k: usize = 0;
        assert(text::texts(args@).take(0) =~= Seq::<Seq<char>>::empty());
        assert(text::texts(out@) =~= card_args(card_index) + text::texts(args@).take(0));
        while k < args.len()
            invariant
                k <= args.len(),
                text::texts(out@) == card_args(card_index) + text::texts(args@).take(k as int),
            decreases args.len() - k,
        {
            let ghost before = out@;
            out.push(args[k].clone());
            assert(text::texts(out@) =~= text::texts(before).push(args@[k as int]@));
            assert(text::texts(args@).take(k + 1) =~= text::texts(args@).take(k as int).push(
                args@[k as int]@,
            ));
            assert(text::texts(out@) =~= card_args(card_index) + text::texts(args@).take(k + 1));
            k = k + 1;
        }
        assert(text::texts(args@).take(args@.len() as int) =~= text::texts(args@));
        assert(Seq::<Seq<char>>::empty() + text::texts(args@) =~= text::texts(args@));
        out
    }

    /// The arguments that list the controls of a card.
    pub fn list_args(card_index: Option<u8>) -> (r: Vec<String>)
        ensures
            text::texts(r@) == card_args(card_index).push("scontrols"@),
    {
        let mut args: Vec<String> = Vec::new();
        args.push("scontrols".to_owned());
        assert(card_args(card_index) + text::texts(args@) =~= card_args(card_index).push(
            "scontrols"@,
        ));
        Self::amixer_args(card_index, &args)
    }

    /// The control names that a run of the listing command shows. Empty if
    /// `amixer` could not be run.
    pub fn available_control_names(listing: &CommandOutcome) -> (r: Vec<String>)
        ensures
            text::texts(r@) == listed_controls(*listing),
    {
        match listing {
            CommandOutcome::Exited { success: _, stdout, stderr: _ } => {
                Self::parse_control_names(text::from_utf8_lossy(stdout).as_str())
            },
            CommandOutcome::Failed(_) => {
                let none: Vec<String> = Vec::new();
                assert(text::texts(none@) =~= Seq::<Seq<char>>::empty());
                none
            },
        }
    }

    /// What a run of `amixer` comes to: its output, or an error. A run that
    /// exits with a failure asks for the controls of the card first.
    pub fn run_amixer(outcome: CommandOutcome) -> (r: AmixerStep)
        ensures
            match outcome {
                CommandOutcome::Failed(e) => r == AmixerStep::Finished(Err(AudioError::Io(e))),
                CommandOutcome::Exited { success, stdout, stderr } => if success {
                    r matches AmixerStep::Finished(Ok(out)) && out@ == text::text_of_bytes(stdout@)
                } else {
                    r matches AmixerStep::ListControls(err) && err@ == text::text_of_bytes(stderr@)
                },
            },
    {
        match outcome {
            CommandOutcome::Failed(e) => AmixerStep::Finished(Err(AudioError::Io(e))),
            CommandOutcome::Exited { success, stdout, stderr } => {
                if success {
                    AmixerStep::Finished(Ok(text::from_utf8_lossy(&stdout)))
                } else {
                    AmixerStep::ListControls(text::from_utf8_lossy(&stderr))
                }
            },
        }
    }

    /// The error for a run that exited with a failure: what it wrote, and the
    /// controls that the card has, so that a wrong control name is seen at once.
    pub fn amixer_error(card_index: Option<u8>, stderr: &str, names: &Vec<String>) -> (r:
        AudioError)
        ensures
            r@ == amixer_failure(card_index, stderr@, text::texts(names@)),
    {
        let available = Self::available_controls(card_index, names);
        AudioError::Command(
            stderr.to_owned().concat("Available controls on card ").concat(
                card_text(card_index).as_str(),
            ).concat(": ").concat(available.as_str()),
        )
    }
}

// ---------------------------------------------------------------------------
// Volume and gain
// ---------------------------------------------------------------------------

/// A percentage as an argument of `amixer`.
pub open spec fn pct_arg_of(pct: u8) -> Seq<char> {
    text::decimal_of(pct as nat) + "%"@
}

fn pct_arg(pct: u8) -> (r: String)
    ensures
        r@ == pct_arg_of(pct),
{
    text::decimal(pct as u64).concat("%")
}

fn get_args(control: &str) -> (r: Vec<String>)
    ensures
        text::texts(r@) == seq!["get"@, control@],
{
    let mut out: Vec<String> = Vec::new();
    out.push("get".to_owned());
    out.push(control.to_owned());
    assert(text::texts(out@) =~= seq!["get"@, control@]);
    out
}

fn set_args(control: &str, pct: u8) -> (r: Vec<String>)
    ensures
        text::texts(r@) == seq!["sset"@, control@, pct_arg_of(pct)],
{
    let mut out: Vec<String> = Vec::new();
    out.push("sset".to_owned());
    out.push(control.to_owned());
    out.push(pct_arg(pct));
    assert(text::texts(out@) =~= seq!["sset"@, control@, pct_arg_of(pct)]);
    out
}

/// The next thing to do while the microphone gain is read or set.
#[derive(Debug)]
pub enum GainStep<T> {
    /// Run `amixer` on the input card with these arguments, and record what
    /// came of it.
    Run(Vec<String>),
    /// Nothing more: this is the answer.
    Done(Result<T, AudioError>),
}

/// The first place from `from` on where an attempt succeeded.
pub open spec fn first_success<T>(attempts: Seq<Result<T, AudioError>>, from: int) -> Option<int>
    decreases attempts.len() - from,
{
    if from < 0 || from >= attempts.len() {
        None
    } else if attempts[from] is Ok {
        Some(from)
    } else {
        first_success(attempts, from + 1)
    }
}

proof fn lemma_first_success<T>(attempts: Seq<Result<T, AudioError>>, from: int)
    requires
        0 <= from <= attempts.len(),
    ensures
        forall|i: int|
            from <= i < attempts.len() && #[trigger] attempts[i] is Ok && (forall|k: int|
                from <= k < i ==> attempts[k] is Err) ==> first_success(attempts, from) == Some(i),
        first_success(attempts, from) is None ==> forall|i: int|
            from <= i < attempts.len() ==> #[trigger] attempts[i] is Err,
        first_success(attempts, from) matches Some(i) ==> from <= i < attempts.len()
            && attempts[i] is Ok,
    decreases attempts.len() - from,
{
    if from < attempts.len() {
        lemma_first_success(attempts, from + 1);
        assert forall|i: int|
            from <= i < attempts.len() && #[trigger] attempts[i] is Ok && (forall|k: int|
                from <= k < i ==> attempts[k] is Err) implies first_success(attempts, from)
            == Some(i) by {
            if i > from {
                assert(attempts[from] is Err);
            }
        }
    }
}

impl AmixerControl {
    /// The arguments that read the output volume.
    pub fn get_volume_args(&self) -> (r: Vec<String>)
        ensures
            text::texts(r@) == seq!["get"@, self.output_control@],
    {
        get_args(self.output_control.as_str())
    }

    /// The arguments that set the output volume.
    pub fn set_volume_args(&self, pct: u8) -> (r: Vec<String>)
        ensures
            text::texts(r@) == seq!["sset"@, self.output_control@, pct_arg_of(pct)],
    {
        set_args(self.output_control.as_str(), pct)
    }

    /// The level that a run of `amixer` shows, or the error of the run.
    pub fn level_from(run: Result<String, AudioError>) -> (r: Result<u8, AudioError>)
        ensures
            match run {
                Ok(output) => outcome_view(r) == level_of(output@),
                Err(e) => r == Err::<u8, AudioError>(e),
            },
            r matches Ok(pct) ==> pct <= 100,
    {
        match run {
            Ok(output) => Self::parse_pct(output.as_str()),
            Err(e) => Err(e),
        }
    }

    /// The capture controls to drive on a card: the configured ones that it
    /// has. An error if it has none of them.
    pub fn mic_targets(&self, card: Option<u8>, available: &Vec<String>) -> (r: Result<
        Vec<String>,
        AudioError,
    >)
        ensures
            ({
                let targets = selected(
                    text::texts(self.input_controls@),
                    text::texts(available@),
                );
                if targets.len() == 0 {
                    r matches Err(e) && e@ == no_mic_control(
                        text::texts(self.input_controls@),
                        card,
                        text::texts(available@),
                    )
                } else {
                    r matches Ok(v) && text::texts(v@) == targets
                }
            }),
    {
        let targets = Self::select_controls(&self.input_controls, available);
        assert(text::texts(targets@).len() == targets@.len());
        if targets.is_empty() {
            Err(self.no_mic_control_error(card, available))
        } else {
            Ok(targets)
        }
    }

    /// Read the microphone gain: the first present control that yields a
    /// percentage decides (a capture switch carries no level).
    ///
    /// `readings` holds what the controls tried so far have yielded, in order.
    /// Once one has yielded a level, that level is the answer; when all have
    /// failed, the last error is.
    pub fn get_mic_gain_pct(
        targets: &Vec<String>,
        readings: &Vec<Result<u8, AudioError>>,
    ) -> (r: GainStep<u8>)
        requires
            targets.len() > 0,
            readings.len() <= targets.len(),
        ensures
            forall|i: int|
                0 <= i < readings.len() && #[trigger] readings@[i] is Ok && (forall|k: int|
                    0 <= k < i ==> readings@[k] is Err) ==> r == GainStep::Done(readings@[i]),
            match first_success(readings@, 0) {
                Some(i) => r == GainStep::Done(readings@[i]),
                None => if readings.len() < targets.len() {
                    r matches GainStep::Run(args) && text::texts(args@) == seq![
                        "get"@,
                        targets@[readings.len() as int]@,
                    ]
                } else {
                    r == GainStep::Done(readings@.last())
                },
            },
            (forall|k: int|
                0 <= k < readings.len() ==> (#[trigger] readings@[k] matches Ok(p) ==> p <= 100))
                ==> (r matches GainStep::Done(Ok(p)) ==> p <= 100),
    {
        proof {
            lemma_first_success(readings@, 0);
        }
        let mut i: usize = 0;
        while i < readings.len()
            invariant
                i <= readings.len(),
                first_success(readings@, 0) == first_success(readings@, i as int),
                forall|k: int| 0 <= k < i ==> readings@[k] is Err,
            decreases readings.len() - i,
        {
            if let Ok(pct) = &readings[i] {
                return GainStep::Done(Ok(*pct));
            }
            i = i + 1;
        }
        if readings.len() < targets.len() {
            GainStep::Run(get_args(targets[readings.len()].as_str()))
        } else {
            assert(readings@.last() is Err);
            match &readings[readings.len() - 1] {
                Ok(pct) => GainStep::Done(Ok(*pct)),
                Err(e) => GainStep::Done(Err(e.clone())),
            }
        }
    }

    /// Set the microphone gain: every present control is set, and it is enough
    /// that one of them takes (a present control can still reject the level,
    /// as a read-only capture switch does).
    ///
    /// `attempts` holds what the controls set so far have answered, in order.
    /// When all have been tried and none took, the last error is the answer.
    pub fn set_mic_gain_pct(
        targets: &Vec<String>,
        pct: u8,
        attempts: &Vec<Result<String, AudioError>>,
    ) -> (r: GainStep<()>)
        requires
            targets.len() > 0,
            attempts.len() <= targets.len(),
        ensures
            if attempts.len() < targets.len() {
                r matches GainStep::Run(args) && text::texts(args@) == seq![
                    "sset"@,
                    targets@[attempts.len() as int]@,
                    pct_arg_of(pct),
                ]
            } else if exists|i: int| 0 <= i < attempts.len() && attempts@[i] is Ok {
                r == GainStep::Done(Ok::<(), AudioError>(()))
            } else {
                r == GainStep::Done(Err::<(), AudioError>(attempts@.last()->Err_0))
            },
    {
        if attempts.len() < targets.len() {
            return GainStep::Run(set_args(targets[attempts.len()].as_str(), pct));
        }
        let mut i: usize = 0;
        while i < attempts.len()
            invariant
                i <= attempts.len(),
                attempts.len() >= targets.len(),
                forall|k: int| 0 <= k < i ==> attempts@[k] is Err,
            decreases attempts.len() - i,
        {
            if attempts[i].is_ok() {
                assert(attempts@[i as int] is Ok);
                return GainStep::Done(Ok(()));
            }
            i = i + 1;
        }
        assert(attempts@.last() is Err);
        match &attempts[attempts.len() - 1] {
            Ok(_) => GainStep::Done(Ok(())),
            Err(e) => GainStep::Done(Err(e.clone())),
        }
    }
}

// ---------------------------------------------------------------------------
// Laws
// ---------------------------------------------------------------------------

/// A card found by name is that of the first line that names one: no line
/// before it belongs to a card and holds the name, and where no line at all
/// does, none is found.
pub proof fn law_first_match_wins(cards: Seq<char>, name: Seq<char>)
    requires
        text::lower_of(text::trim_of(name)).len() > 0,
    ensures
        ({
            let lines = text::lines_of(cards);
            let lowered = lower_lines(lines);
            let needle = text::lower_of(text::trim_of(name));
            match card_named(cards, name) {
                Some(c) => exists|i: int|
                    #![trigger line_names_card(lines, lowered, needle, i)]
                    {
                        &&& 0 <= i < lines.len()
                        &&& line_names_card(lines, lowered, needle, i)
                        &&& card_of_line(lines, i) == Some(c)
                        &&& forall|j: int|
                            0 <= j < i ==> !line_names_card(lines, lowered, needle, j)
                    },
                None => forall|j: int|
                    0 <= j < lines.len() ==> !line_names_card(lines, lowered, needle, j),
            }
        }),
{
    let lines = text::lines_of(cards);
    lemma_first_card(lines, lower_lines(lines), text::lower_of(text::trim_of(name)), 0);
}

proof fn lemma_first_card(
    lines: Seq<Seq<char>>,
    lowered: Seq<Seq<char>>,
    needle: Seq<char>,
    from: int,
)
    requires
        0 <= from <= lines.len(),
    ensures
        match first_card_named(lines, lowered, needle, from) {
            Some(c) => exists|i: int|
                #![trigger line_names_card(lines, lowered, needle, i)]
                {
                    &&& from <= i < lines.len()
                    &&& line_names_card(lines, lowered, needle, i)
                    &&& card_of_line(lines, i) == Some(c)
                    &&& forall|j: int|
                        from <= j < i ==> !line_names_card(lines, lowered, needle, j)
                },
            None => forall|j: int|
                from <= j < lines.len() ==> !line_names_card(lines, lowered, needle, j),
        },
    decreases lines.len() - from,
{
    if from < lines.len() && !line_names_card(lines, lowered, needle, from) {
        lemma_first_card(lines, lowered, needle, from + 1);
    }
}

proof fn lemma_first_card_is(
    lines: Seq<Seq<char>>,
    lowered: Seq<Seq<char>>,
    needle: Seq<char>,
    from: int,
    i: int,
)
    requires
        0 <= from <= i < lines.len(),
        line_names_card(lines, lowered, needle, i),
        forall|j: int| from <= j < i ==> !line_names_card(lines, lowered, needle, j),
    ensures
        first_card_named(lines, lowered, needle, from) == card_of_line(lines, i),
    decreases i - from,
{
    if from < i {
        assert(!line_names_card(lines, lowered, needle, from));
        lemma_first_card_is(lines, lowered, needle, from + 1, i);
    }
}

/// A card that is found in a listing is still found when more lines follow: the
/// first match wins, whatever cards are listed after it. Where the listing ends
/// in a carriage return, which the line feed would take along, its last line and
/// the name are to be ASCII.
pub proof fn law_first_match_stays(cards: Seq<char>, more: Seq<char>, name: Seq<char>)
    requires
        card_named(cards, name) is Some,
        cards.len() > 0 && cards.last() == '\r' ==> is_ascii_chars(text::lines_of(cards).last())
            && is_ascii_chars(name),
    ensures
        card_named(cards + seq!['\n'] + more, name) == card_named(cards, name),
{
    let lines = text::lines_of(cards);
    let lowered = lower_lines(lines);
    let needle = text::lower_of(text::trim_of(name));
    let closed = text::closed_lines(cards, 0);
    let all = text::lines_of(cards + seq!['\n'] + more);
    let all_lowered = lower_lines(all);
    text::lemma_lines_joined(cards, more, 0);
    text::lemma_closed_lines(cards, 0);
    lemma_first_card(lines, lowered, needle, 0);
    let i = choose|i: int|
        #![trigger line_names_card(lines, lowered, needle, i)]
        {
            &&& 0 <= i < lines.len()
            &&& line_names_card(lines, lowered, needle, i)
            &&& card_of_line(lines, i) == card_named(cards, name)
            &&& forall|j: int| 0 <= j < i ==> !line_names_card(lines, lowered, needle, j)
        };
    assert forall|j: int| 0 <= j < lines.len() implies #[trigger] all[j] == lines[j] || (j
        == lines.len() - 1 && cards.len() > 0 && cards.last() == '\r' && all[j]
        == text::without_cr(lines[j])) by {
        assert(all[j] == closed[j]);
    }
    assert forall|j: int| 0 <= j < lines.len() implies card_header_of(#[trigger] all[j])
        == card_header_of(lines[j]) by {
        lemma_header_without_cr(lines[j]);
    }
    assert forall|j: int| 0 <= j <= i implies line_names_card(all, all_lowered, needle, j)
        == line_names_card(lines, lowered, needle, j) by {
        lemma_same_cards(lines, all, j);
        if all[j] != lines[j] {
            lemma_needle_without_cr(lines[j], name);
        }
        assert(all_lowered[j] == text::lower_of(all[j]));
        assert(lowered[j] == text::lower_of(lines[j]));
    }
    lemma_same_cards(lines, all, i);
    assert(all.len() >= lines.len());
    lemma_first_card_is(all, all_lowered, needle, 0, i);
}

/// Lines with the same headers belong to the same cards.
proof fn lemma_same_cards(a: Seq<Seq<char>>, b: Seq<Seq<char>>, i: int)
    requires
        i < a.len() <= b.len(),
        forall|j: int|
            0 <= j < a.len() ==> card_header_of(#[trigger] b[j]) == card_header_of(a[j]),
    ensures
        card_of_line(a, i) == card_of_line(b, i),
    decreases i + 1,
{
    if i >= 0 {
        assert(card_header_of(b[i]) == card_header_of(a[i]));
        lemma_same_cards(a, b, i - 1);
    }
}

/// A carriage return at the end of a line makes no difference to the card index
/// that it starts with.
proof fn lemma_header_without_cr(line: Seq<char>)
    ensures
        card_header_of(text::without_cr(line)) == card_header_of(line),
{
    if line.len() > 0 && line.last() == '\r' {
        let shut = line.drop_last();
        let t = text::trim_start_of(line);
        lemma_trim_start_shorter(line);
        text::lemma_first_at(t, ' ', 0);
        if t.len() > 0 {
            text::lemma_first_at_shorter(t, ' ', 0);
            if let Some(i) = text::first_at(t, ' ', 0) {
                let rest = t.skip(i + 1);
                let shut_rest = t.drop_last().skip(i + 1);
                assert(rest.last() == '\r');
                assert(shut_rest =~= rest.drop_last());
                lemma_trim_start_shorter(rest);
                assert(t.take(i) =~= t.drop_last().take(i));
            }
        }
    }
}

/// A carriage return at the end is the first thing that the end of a text loses,
/// whatever its start loses.
proof fn lemma_trim_start_shorter(s: Seq<char>)
    requires
        s.len() > 0,
        s.last() == '\r',
    ensures
        ({
            let t = text::trim_start_of(s);
            let shut = text::trim_start_of(s.drop_last());
            if t.len() > 0 {
                t.last() == '\r' && shut == t.drop_last()
            } else {
                shut.len() == 0
            }
        }),
    decreases s.len(),
{
    if s.len() == 1 {
        assert(s[0] == '\r');
        assert(text::trim_start_of(s.drop_first()).len() == 0);
        assert(text::trim_start_of(s.drop_last()).len() == 0);
    } else if text::is_space(s[0]) {
        assert(s.drop_last()[0] == s[0]);
        assert(s.drop_last().drop_first() =~= s.drop_first().drop_last());
        lemma_trim_start_shorter(s.drop_first());
    }
}

/// A carriage return at the end of an ASCII line is part of no match.
proof fn lemma_needle_without_cr(line: Seq<char>, name: Seq<char>)
    requires
        line.len() > 0,
        line.last() == '\r',
        is_ascii_chars(line),
        is_ascii_chars(name),
        text::lower_of(text::trim_of(name)).len() > 0,
    ensures
        text::contains_text(
            text::lower_of(line.drop_last()),
            text::lower_of(text::trim_of(name)),
        ) == text::contains_text(text::lower_of(line), text::lower_of(text::trim_of(name))),
{
    let t = text::trim_of(name);
    lemma_trim_start_keeps_case(name, name);
    lemma_trim_end_keeps_case(text::trim_start_of(name), text::trim_start_of(name));
    lemma_trimmed_end(text::trim_start_of(name));
    let needle = text::lower_of(t);
    let long = text::lower_of(line);
    let short = text::lower_of(line.drop_last());
    assert(short =~= long.drop_last());
    assert(long.last() == '\r');
    assert(needle.last() != '\r');
    if text::contains_text(long, needle) {
        let i = choose|i: int| text::stands_at(long, needle, i);
        assert(long.subrange(i, i + needle.len()).last() == needle.last());
        assert(i + needle.len() < long.len());
        assert(short.subrange(i, i + needle.len()) =~= long.subrange(i, i + needle.len()));
        assert(text::stands_at(short, needle, i));
    }
    if text::contains_text(short, needle) {
        let i = choose|i: int| text::stands_at(short, needle, i);
        assert(short.subrange(i, i + needle.len()) =~= long.subrange(i, i + needle.len()));
        assert(text::stands_at(long, needle, i));
    }
}

proof fn lemma_trimmed_end(s: Seq<char>)
    ensures
        text::trim_end_of(s).len() > 0 ==> !text::is_space(text::trim_end_of(s).last()),
    decreases s.len(),
{
    if s.len() > 0 && text::is_space(s.last()) {
        lemma_trimmed_end(s.drop_last());
    }
}

/// An explicit index prevails over the listing, whatever it holds.
pub proof fn law_explicit_index_wins(index: u8, name: Seq<char>, cards: Option<&str>)
    ensures
        card_choice(Some(index), name, cards) == Some(index),
{
}

/// The letter case of a name makes no difference to the card that it finds.
pub proof fn law_card_name_ignores_case(cards: Seq<char>, a: Seq<char>, b: Seq<char>)
    requires
        is_ascii_chars(a),
        is_ascii_chars(b),
        text::same_but_ascii_case(a, b),
    ensures
        card_named(cards, a) == card_named(cards, b),
{
    lemma_trim_start_keeps_case(a, b);
    lemma_trim_end_keeps_case(text::trim_start_of(a), text::trim_start_of(b));
}

proof fn lemma_same_case(a: Seq<char>, b: Seq<char>)
    requires
        is_ascii_chars(a),
        is_ascii_chars(b),
        text::same_but_ascii_case(a, b),
    ensures
        a.len() == b.len(),
        forall|i: int|
            0 <= i < a.len() ==> text::is_space(#[trigger] a[i]) == text::is_space(b[i]),
        a.len() > 0 ==> text::same_but_ascii_case(a.drop_first(), b.drop_first()),
        a.len() > 0 ==> text::same_but_ascii_case(a.drop_last(), b.drop_last()),
{
    let x = text::ascii_lower_of(a);
    let y = text::ascii_lower_of(b);
    assert(x.len() == y.len());
    assert forall|i: int| 0 <= i < a.len() implies text::is_space(#[trigger] a[i])
        == text::is_space(b[i]) by {
        assert(x[i] == y[i]);
    }
    if a.len() > 0 {
        assert(text::ascii_lower_of(a.drop_first()) =~= x.drop_first());
        assert(text::ascii_lower_of(b.drop_first()) =~= y.drop_first());
        assert(text::ascii_lower_of(a.drop_last()) =~= x.drop_last());
        assert(text::ascii_lower_of(b.drop_last()) =~= y.drop_last());
    }
}

proof fn lemma_trim_start_keeps_case(a: Seq<char>, b: Seq<char>)
    requires
        is_ascii_chars(a),
        is_ascii_chars(b),
        text::same_but_ascii_case(a, b),
    ensures
        is_ascii_chars(text::trim_start_of(a)),
        is_ascii_chars(text::trim_start_of(b)),
        text::same_but_ascii_case(text::trim_start_of(a), text::trim_start_of(b)),
    decreases a.len(),
{
    lemma_same_case(a, b);
    if a.len() > 0 && text::is_space(a[0]) {
        lemma_trim_start_keeps_case(a.drop_first(), b.drop_first());
    }
}

proof fn lemma_trim_end_keeps_case(a: Seq<char>, b: Seq<char>)
    requires
        is_ascii_chars(a),
        is_ascii_chars(b),
        text::same_but_ascii_case(a, b),
    ensures
        is_ascii_chars(text::trim_end_of(a)),
        is_ascii_chars(text::trim_end_of(b)),
        text::same_but_ascii_case(text::trim_end_of(a), text::trim_end_of(b)),
    decreases a.len(),
{
    lemma_same_case(a, b);
    if a.len() > 0 && text::is_space(a.last()) {
        lemma_trim_end_keeps_case(a.drop_last(), b.drop_last());
    }
}

/// A name of blanks alone finds no card.
pub proof fn law_blank_name_finds_nothing(cards: Seq<char>, name: Seq<char>)
    requires
        forall|i: int| 0 <= i < name.len() ==> text::is_space(name[i]),
    ensures
        card_named(cards, name) is None,
{
    lemma_blank_trims_away(name);
}

proof fn lemma_blank_trims_away(s: Seq<char>)
    requires
        forall|i: int| 0 <= i < s.len() ==> text::is_space(s[i]),
    ensures
        text::trim_of(s) == Seq::<char>::empty(),
    decreases s.len(),
{
    if s.len() > 0 {
        lemma_blank_trims_away(s.drop_first());
    } else {
        assert(s =~= Seq::<char>::empty());
    }
}

/// The names of two listings, one after the other, are the names of both, in
/// order; a name that both have occurs twice.
pub proof fn law_control_names_add_up(a: Seq<char>, b: Seq<char>)
    ensures
        control_names_of(a + seq!['\n'] + b) == control_names_of(a) + control_names_of(b),
{
    text::lemma_lines_joined(a, b, 0);
    text::lemma_closed_lines(a, 0);
    let whole = text::lines_of(a);
    let closed = text::closed_lines(a, 0);
    lemma_quoted_names_joined(closed, text::lines_of(b));
    if a.len() == 0 || a.last() == '\n' {
        assert(closed.drop_last() =~= whole);
    } else {
        assert(closed.drop_last() =~= whole.drop_last());
        let last = whole.last();
        if last.len() > 0 && last.last() == '\r' {
            let shut = last.drop_last();
            text::lemma_first_at_shorter(last, '\'', 0);
            text::lemma_first_at(last, '\'', 0);
            if let Some(i) = text::first_at(last, '\'', 0) {
                text::lemma_first_at_shorter(last, '\'', i + 1);
                text::lemma_first_at(last, '\'', i + 1);
                if let Some(j) = text::first_at(last, '\'', i + 1) {
                    assert(shut.subrange(i + 1, j) =~= last.subrange(i + 1, j));
                }
            }
            assert(quoted_name(shut) == quoted_name(last));
        }
        assert(quoted_name(closed.last()) == quoted_name(last));
    }
}

proof fn lemma_quoted_names_joined(a: Seq<Seq<char>>, b: Seq<Seq<char>>)
    ensures
        quoted_names(a + b) == quoted_names(a) + quoted_names(b),
    decreases b.len(),
{
    if b.len() == 0 {
        assert(a + b =~= a);
        assert(quoted_names(a) + quoted_names(b) =~= quoted_names(a));
    } else {
        lemma_quoted_names_joined(a, b.drop_last());
        assert((a + b).drop_last() =~= a + b.drop_last());
        assert((a + b).last() == b.last());
        assert(quoted_names(a + b) =~= quoted_names(a) + quoted_names(b));
    }
}

/// A single line gives at most one name: the text between its first two quotes.
pub proof fn law_one_control_name_in_a_line(line: Seq<char>)
    requires
        forall|i: int| 0 <= i < line.len() ==> line[i] != '\n',
    ensures
        control_names_of(line) == (match quoted_name(line) {
            Some(name) => seq![name],
            None => Seq::empty(),
        }),
{
    text::lemma_first_at(line, '\n', 0);
    reveal_with_fuel(quoted_names, 3);
    if line.len() > 0 {
        assert(line.subrange(0, line.len() as int) =~= line);
        assert(text::lines_of(line) =~= seq![line]);
        assert(seq![line].drop_last() =~= Seq::<Seq<char>>::empty());
        assert(Seq::<Seq<char>>::empty().push(quoted_name(line)->0) =~= seq![quoted_name(line)->0]);
    } else {
        assert(control_names_of(line) =~= Seq::empty());
    }
}

/// Configured order is kept: what a longer list selects is what its first part
/// selects, followed by what the rest selects.
pub proof fn law_selection_keeps_order(
    first: Seq<Seq<char>>,
    rest: Seq<Seq<char>>,
    available: Seq<Seq<char>>,
)
    ensures
        selected(first + rest, available) == selected(first, available) + selected(rest, available),
    decreases rest.len(),
{
    if rest.len() == 0 {
        assert(first + rest =~= first);
        assert(selected(first, available) + selected(rest, available) =~= selected(
            first,
            available,
        ));
    } else {
        law_selection_keeps_order(first, rest.drop_last(), available);
        assert((first + rest).drop_last() =~= first + rest.drop_last());
        assert((first + rest).last() == rest.last());
        assert(selected(first + rest, available) =~= selected(first, available) + selected(
            rest,
            available,
        ));
    }
}

/// Every selected control is one that the card has, in the card's own writing,
/// and every configured control that the card has is selected.
pub proof fn law_selection_is_what_is_present(
    configured: Seq<Seq<char>>,
    available: Seq<Seq<char>>,
)
    ensures
        forall|k: int|
            0 <= k < selected(configured, available).len() ==> available.contains(
                #[trigger] selected(configured, available)[k],
            ),
        forall|i: int, j: int|
            #![trigger configured[i], available[j]]
            0 <= i < configured.len() && 0 <= j < available.len() && text::same_but_ascii_case(
                available[j],
                configured[i],
            ) ==> exists|k: int|
                0 <= k < selected(configured, available).len() && text::same_but_ascii_case(
                    #[trigger] selected(configured, available)[k],
                    configured[i],
                ),
    decreases configured.len(),
{
    if configured.len() > 0 {
        let less = configured.drop_last();
        let s = selected(configured, available);
        let t = selected(less, available);
        law_selection_is_what_is_present(less, available);
        lemma_available_as(configured.last(), available, 0);
        assert forall|k: int| 0 <= k < s.len() implies available.contains(#[trigger] s[k]) by {
            if k < t.len() {
                assert(s[k] == t[k]);
            }
        }
        assert forall|i: int, j: int|
            #![trigger configured[i], available[j]]
            0 <= i < configured.len() && 0 <= j < available.len() && text::same_but_ascii_case(
                available[j],
                configured[i],
            ) implies exists|k: int|
            0 <= k < s.len() && text::same_but_ascii_case(
                #[trigger] s[k],
                configured[i],
            ) by {
            if i < less.len() {
                assert(less[i] == configured[i]);
                let k = choose|k: int|
                    0 <= k < t.len() && text::same_but_ascii_case(#[trigger] t[k], less[i]);
                assert(s[k] == t[k]);
            } else {
                assert(s[s.len() - 1] == s.last());
            }
        }
    }
}

proof fn lemma_available_as(want: Seq<char>, available: Seq<Seq<char>>, from: int)
    requires
        0 <= from <= available.len(),
    ensures
        available_as(want, available, from) matches Some(have) ==> available.contains(have)
            && text::same_but_ascii_case(have, want),
        available_as(want, available, from) is None ==> forall|j: int|
            from <= j < available.len() ==> !text::same_but_ascii_case(
                #[trigger] available[j],
                want,
            ),
    decreases available.len() - from,
{
    if from < available.len() && !text::same_but_ascii_case(available[from], want) {
        lemma_available_as(want, available, from + 1);
    }
}

/// A level that `amixer` prints is read back, whatever stands before it on its
/// line, other brackets among it, so long as that shows no level itself, and
/// whatever follows it, on this line or on others.
pub proof fn law_printed_level_is_read_back(before: Seq<char>, pct: u8, after: Seq<char>)
    requires
        pct <= 100,
        forall|i: int| 0 <= i < before.len() ==> before[i] != '\n',
        level_in(before, 0) is None,
    ensures
        level_of(before + seq!['['] + text::decimal_of(pct as nat) + seq!['%', ']'] + after)
            == Ok::<u8, AudioErrorView>(pct),
{
    let digits = text::decimal_of(pct as nat);
    let shown = before + seq!['['] + digits + seq!['%', ']'];
    let s = shown + after;
    text::lemma_decimal(pct as nat);
    text::law_decimal_round_trip(pct as nat, 100);
    assert forall|k: int| 0 <= k < shown.len() implies s[k] != '\n' by {
        if k < before.len() {
            assert(s[k] == before[k]);
        } else if before.len() < k <= before.len() + digits.len() {
            assert(s[k] == digits[k - before.len() - 1]);
            assert(text::digit_value(digits[k - before.len() - 1]) < 10);
        }
    }
    text::lemma_first_at(s, '\n', 0);
    let end = match text::first_at(s, '\n', 0) {
        Some(i) => i,
        None => s.len() as int,
    };
    let line = text::lines_of(s)[0];
    assert(s.subrange(0, end).last() == ']' || end > shown.len());
    let rest = line.skip(shown.len() as int);
    assert(line =~= shown + rest);
    assert(line =~= before + seq!['['] + digits + seq!['%', ']'] + rest);
    lemma_level_in_line(before, digits, rest, 0);
    assert(first_level(text::lines_of(s), 0) == Some(digits));
}

/// Where the first part of a line shows no level, a level that follows is the
/// first of the line.
proof fn lemma_level_in_line(before: Seq<char>, digits: Seq<char>, rest: Seq<char>, from: int)
    requires
        0 <= from <= before.len(),
        level_in(before, from) is None,
        digits.len() > 0,
        digits[0] != '+',
        text::all_digits(digits, 10),
    ensures
        level_in(before + seq!['['] + digits + seq!['%', ']'] + rest, from) == Some(digits),
    decreases before.len() - from,
{
    let line = before + seq!['['] + digits + seq!['%', ']'] + rest;
    let i = before.len() as int;
    assert(line[i] == '[');
    if from == i {
        let j = i + 1 + digits.len();
        assert forall|k: int| i < k < j implies line[k] != '%' by {
            assert(line[k] == digits[k - i - 1]);
            assert(text::digit_value(digits[k - i - 1]) < 10);
        }
        assert(line[j] == '%' && line[j + 1] == ']');
        text::lemma_first_at_is(line, '%', i, j);
        assert(line.subrange(i + 1, j) =~= digits);
        assert(!text::is_space(digits[0]) && !text::is_space(digits.last())) by {
            assert(text::digit_value(digits[0]) < 10);
            assert(text::digit_value(digits[digits.len() - 1]) < 10);
        }
        assert(text::trim_of(digits) == digits);
        assert(text::without_plus(digits) == digits);
        assert(level_at(line, i) == Some(digits));
    } else {
        lemma_level_in_line(before, digits, rest, from + 1);
        assert(line[from] == before[from]);
        if level_at(line, from) is Some {
            let j = text::first_at(line, '%', from)->0;
            text::lemma_first_at(line, '%', from);
            let inner = line.subrange(from + 1, j);
            lemma_only_digits_and_blanks(inner);
            if j > i {
                assert(inner[i - from - 1] == '[');
            }
            assert(j + 1 < i);
            assert(before[j] == line[j] && before[j + 1] == line[j + 1]);
            assert forall|k: int| from <= k < j implies before[k] != '%' by {
                assert(before[k] == line[k]);
            }
            text::lemma_first_at_is(before, '%', from, j);
            assert(before.subrange(from + 1, j) =~= inner);
            assert(level_at(before, from) is Some);
        }
    }
}

/// What trims to a numeral holds nothing but digits, a sign and blanks.
proof fn lemma_only_digits_and_blanks(s: Seq<char>)
    requires
        text::is_numeral(text::trim_of(s), 10),
    ensures
        forall|i: int| 0 <= i < s.len() ==> #[trigger] s[i] != '[',
{
    assert forall|i: int| 0 <= i < s.len() implies #[trigger] s[i] != '[' by {
        if s[i] == '[' {
            text::lemma_trim_keeps(s, i);
            let t = text::trim_of(s);
            let k = choose|k: int| 0 <= k < t.len() && t[k] == '[';
            let digits = text::without_plus(t);
            let m = if t[0] == '+' {
                k - 1
            } else {
                k
            };
            assert(digits[m] == '[');
            assert(text::digit_value(digits[m]) < 10);
        }
    }
}

/// Of two outputs, one after the other, the first that shows a level decides.
pub proof fn law_first_level_wins(a: Seq<char>, b: Seq<char>)
    ensures
        shown_level(a + seq!['\n'] + b) == (match shown_level(a) {
            Some(level) => Some(level),
            None => shown_level(b),
        }),
{
    text::lemma_lines_joined(a, b, 0);
    text::lemma_closed_lines(a, 0);
    let whole = text::lines_of(a);
    let closed = text::closed_lines(a, 0);
    lemma_first_level_joined(closed, text::lines_of(b));
    if a.len() == 0 || a.last() == '\n' {
        let blank = seq![Seq::<char>::empty()];
        assert(closed =~= whole + blank);
        lemma_first_level_joined(whole, blank);
        assert(first_level(blank, 1) is None);
        assert(first_level(blank, 0) is None);
    } else {
        let last = whole.last();
        let open = seq![last];
        let shut = seq![text::without_cr(last)];
        assert(whole =~= whole.drop_last() + open);
        assert(closed =~= whole.drop_last() + shut);
        lemma_first_level_joined(whole.drop_last(), open);
        lemma_first_level_joined(whole.drop_last(), shut);
        lemma_level_without_cr(last, 0);
        assert(first_level(open, 1) is None && first_level(shut, 1) is None);
        assert(first_level(open, 0) == level_in(open[0], 0));
        assert(first_level(shut, 0) == level_in(shut[0], 0));
    }
}

proof fn lemma_first_level_joined(a: Seq<Seq<char>>, b: Seq<Seq<char>>)
    ensures
        first_level(a + b, 0) == (match first_level(a, 0) {
            Some(level) => Some(level),
            None => first_level(b, 0),
        }),
    decreases a.len(),
{
    lemma_first_level_from(a, b, 0);
}

proof fn lemma_first_level_from(a: Seq<Seq<char>>, b: Seq<Seq<char>>, from: int)
    requires
        0 <= from <= a.len(),
    ensures
        first_level(a + b, from) == (match first_level(a, from) {
            Some(level) => Some(level),
            None => first_level(b, 0),
        }),
    decreases a.len() - from,
{
    if from < a.len() {
        assert((a + b)[from] == a[from]);
        lemma_first_level_from(a, b, from + 1);
    } else {
        lemma_first_level_after(a, b, 0);
    }
}

proof fn lemma_first_level_after(a: Seq<Seq<char>>, b: Seq<Seq<char>>, from: int)
    requires
        0 <= from,
    ensures
        first_level(a + b, a.len() + from) == first_level(b, from),
    decreases b.len() - from,
{
    if from < b.len() {
        assert((a + b)[a.len() + from] == b[from]);
        lemma_first_level_after(a, b, from + 1);
    }
}

/// A carriage return at the end of a line makes no difference to its level.
proof fn lemma_level_without_cr(line: Seq<char>, from: int)
    requires
        0 <= from,
    ensures
        level_in(text::without_cr(line), from) == level_in(line, from),
    decreases line.len() - from,
{
    if line.len() > 0 && line.last() == '\r' {
        let shut = line.drop_last();
        if from < line.len() {
            lemma_level_without_cr(line, from + 1);
            text::lemma_first_at_shorter(line, '%', from);
            text::lemma_first_at(line, '%', from);
            if from < shut.len() && line[from] == '[' {
                if let Some(j) = text::first_at(line, '%', from) {
                    assert(j < shut.len());
                    assert(line.subrange(from + 1, j) =~= shut.subrange(from + 1, j));
                }
            }
            assert(level_at(shut, from) == level_at(line, from));
        }
    }
}

/// A card is found under any part of its header line: an index, a blank, a bracket and
/// whatever follows.
pub proof fn law_a_header_names_its_card(index: u8, rest: Seq<char>, name: Seq<char>)
    requires
        forall|i: int| 0 <= i < rest.len() ==> rest[i] != '\n',
        text::lower_of(text::trim_of(name)).len() > 0,
        text::contains_text(
            text::lower_of(text::decimal_of(index as nat) + seq![' ', '['] + rest),
            text::lower_of(text::trim_of(name)),
        ),
    ensures
        card_named(text::decimal_of(index as nat) + seq![' ', '['] + rest, name) == Some(index),
{
    let line = text::decimal_of(index as nat) + seq![' ', '['] + rest;
    lemma_header(index, rest);
    lemma_single_line(line);
    let lines = text::lines_of(line);
    assert(lower_lines(lines)[0] == text::lower_of(line));
    assert(line_names_card(lines, lower_lines(lines), text::lower_of(text::trim_of(name)), 0));
}

/// A card is found under any part of the line that follows its header.
pub proof fn law_a_description_names_its_card(
    index: u8,
    rest: Seq<char>,
    description: Seq<char>,
    name: Seq<char>,
)
    requires
        forall|i: int| 0 <= i < rest.len() ==> rest[i] != '\n' && rest[i] != '\r',
        forall|i: int| 0 <= i < description.len() ==> description[i] != '\n',
        card_header_of(description) is None,
        text::lower_of(text::trim_of(name)).len() > 0,
        text::contains_text(
            text::lower_of(description),
            text::lower_of(text::trim_of(name)),
        ),
        description.len() > 0,
    ensures
        card_named(
            text::decimal_of(index as nat) + seq![' ', '['] + rest + seq!['\n'] + description,
            name,
        ) == Some(index),
{
    let header = text::decimal_of(index as nat) + seq![' ', '['] + rest;
    let needle = text::lower_of(text::trim_of(name));
    lemma_header(index, rest);
    lemma_single_line(header);
    lemma_single_line(description);
    text::lemma_lines_joined(header, description, 0);
    text::lemma_closed_lines(header, 0);
    let lines = text::lines_of(header + seq!['\n'] + description);
    assert(header.last() != '\r' && header.last() != '\n') by {
        if rest.len() > 0 {
            assert(header.last() == rest.last());
        }
    }
    assert(lines =~= seq![header, description]);
    let lowered = lower_lines(lines);
    assert(lowered[1] == text::lower_of(description));
    assert(card_of_line(lines, 0) == Some(index));
    assert(card_of_line(lines, 1) == Some(index));
    assert(line_names_card(lines, lowered, needle, 1));
    if line_names_card(lines, lowered, needle, 0) {
        lemma_first_card_is(lines, lowered, needle, 0, 0);
    } else {
        lemma_first_card_is(lines, lowered, needle, 0, 1);
    }
}

proof fn lemma_header(index: u8, rest: Seq<char>)
    requires
        forall|i: int| 0 <= i < rest.len() ==> rest[i] != '\n',
    ensures
        ({
            let line = text::decimal_of(index as nat) + seq![' ', '['] + rest;
            &&& card_header_of(line) == Some(index)
            &&& forall|i: int| 0 <= i < line.len() ==> line[i] != '\n'
            &&& line.len() > 0
        }),
{
    let digits = text::decimal_of(index as nat);
    let line = digits + seq![' ', '['] + rest;
    text::lemma_decimal(index as nat);
    text::law_decimal_round_trip(index as nat, 255);
    assert forall|i: int| 0 <= i < digits.len() implies line[i] != ' ' && line[i] != '\n'
        && !text::is_space(line[i]) by {
        assert(line[i] == digits[i]);
        assert(text::digit_value(digits[i]) < 10);
    }
    assert(!text::is_space(line[0]));
    assert(text::trim_start_of(line) == line);
    text::lemma_first_at_is(line, ' ', 0, digits.len() as int);
    let tail = line.skip(digits.len() as int + 1);
    assert(tail[0] == '[');
    assert(text::trim_start_of(tail) == tail);
    assert(line.take(digits.len() as int) =~= digits);
    assert forall|i: int| 0 <= i < line.len() implies line[i] != '\n' by {
        if i >= digits.len() + 2 {
            assert(line[i] == rest[i - digits.len() - 2]);
        }
    }
}

proof fn lemma_single_line(line: Seq<char>)
    requires
        forall|i: int| 0 <= i < line.len() ==> line[i] != '\n',
        line.len() > 0,
    ensures
        text::lines_of(line) == seq![line],
{
    text::lemma_first_at(line, '\n', 0);
    assert(line.subrange(0, line.len() as int) =~= line);
}

/// Only a listing that holds the name finds a card by it: where no line does, in lower
/// case, none is found.
pub proof fn law_what_is_not_listed_is_not_found(cards: Seq<char>, name: Seq<char>)
    requires
        forall|i: int|
            0 <= i < text::lines_of(cards).len() ==> !text::contains_text(
                text::lower_of(#[trigger] text::lines_of(cards)[i]),
                text::lower_of(text::trim_of(name)),
            ),
    ensures
        card_named(cards, name) is None,
{
    let lines = text::lines_of(cards);
    let needle = text::lower_of(text::trim_of(name));
    lemma_first_card(lines, lower_lines(lines), needle, 0);
    assert forall|j: int| 0 <= j < lines.len() implies !line_names_card(
        lines,
        lower_lines(lines),
        needle,
        j,
    ) by {
        assert(lower_lines(lines)[j] == text::lower_of(lines[j]));
    }
}

/// Without an explicit index the listing decides, and without a listing the default
/// card is used.
pub proof fn law_the_listing_decides_otherwise(name: Seq<char>, cards: &str)
    ensures
        card_choice(None, name, Some(cards)) == card_named(cards@, name),
        card_choice(None, name, None) is None,
{
}

/// What stands between the first two quotes of a line is a control name; a line with
/// fewer than two has none.
pub proof fn law_a_control_name_stands_in_quotes(
    before: Seq<char>,
    name: Seq<char>,
    after: Seq<char>,
)
    requires
        forall|i: int| 0 <= i < before.len() ==> before[i] != '\'' && before[i] != '\n',
        forall|i: int| 0 <= i < name.len() ==> name[i] != '\'' && name[i] != '\n',
        forall|i: int| 0 <= i < after.len() ==> after[i] != '\n',
    ensures
        control_names_of(before + seq!['\''] + name + seq!['\''] + after) == seq![name],
        control_names_of(before + seq!['\''] + name).len() == 0,
        control_names_of(before).len() == 0,
{
    let line = before + seq!['\''] + name + seq!['\''] + after;
    let open = before + seq!['\''] + name;
    let i = before.len() as int;
    let j = i + 1 + name.len();
    assert forall|k: int| 0 <= k < line.len() implies line[k] != '\n' by {
        if k < i {
            assert(line[k] == before[k]);
        } else if i < k < j {
            assert(line[k] == name[k - i - 1]);
        } else if k > j {
            assert(line[k] == after[k - j - 1]);
        }
    }
    assert forall|k: int| i < k < j implies line[k] != '\'' by {
        assert(line[k] == name[k - i - 1]);
    }
    assert forall|k: int| 0 <= k < i implies line[k] != '\'' by {
        assert(line[k] == before[k]);
    }
    assert(line[i] == '\'' && line[j] == '\'');
    text::lemma_first_at_is(line, '\'', 0, i);
    text::lemma_first_at_is(line, '\'', i + 1, j);
    assert(line.subrange(i + 1, j) =~= name);
    law_one_control_name_in_a_line(line);
    assert forall|k: int| 0 <= k < open.len() implies open[k] != '\n' && (k == i || open[k]
        != '\'') by {
        if k < i {
            assert(open[k] == before[k]);
        } else if i < k {
            assert(open[k] == name[k - i - 1]);
        }
    }
    assert(open[i] == '\'');
    text::lemma_first_at_is(open, '\'', 0, i);
    text::lemma_first_at(open, '\'', i + 1);
    law_one_control_name_in_a_line(open);
    text::lemma_first_at(before, '\'', 0);
    law_one_control_name_in_a_line(before);
}

/// Of the names that a card has, a configured one selects the first that is the same
/// but for letter case, as the card writes it; and none, where there is none.
pub proof fn law_a_control_selects_the_first_like_it(
    want: Seq<char>,
    available: Seq<Seq<char>>,
    i: int,
)
    requires
        0 <= i <= available.len(),
        forall|j: int|
            0 <= j < i ==> !text::same_but_ascii_case(#[trigger] available[j], want),
        i < available.len() ==> text::same_but_ascii_case(available[i], want),
    ensures
        i < available.len() ==> selected(seq![want], available) == seq![available[i]],
        i == available.len() ==> selected(seq![want], available).len() == 0,
        selected(Seq::empty(), available).len() == 0,
{
    lemma_available_is(want, available, 0, i);
    assert(seq![want].drop_last() =~= Seq::<Seq<char>>::empty());
    reveal_with_fuel(selected, 3);
    if i < available.len() {
        assert(Seq::<Seq<char>>::empty().push(available[i]) =~= seq![available[i]]);
    }
}

proof fn lemma_available_is(want: Seq<char>, available: Seq<Seq<char>>, from: int, i: int)
    requires
        0 <= from <= i <= available.len(),
        forall|j: int|
            from <= j < i ==> !text::same_but_ascii_case(#[trigger] available[j], want),
        i < available.len() ==> text::same_but_ascii_case(available[i], want),
    ensures
        available_as(want, available, from) == (if i < available.len() {
            Some(available[i])
        } else {
            None
        }),
    decreases i - from,
{
    if from < i {
        assert(!text::same_but_ascii_case(available[from], want));
        lemma_available_is(want, available, from + 1, i);
    }
}

/// A level above 100 is an error, and so is an output that shows none.
pub proof fn law_only_percentages_are_levels(output: Seq<char>)
    ensures
        level_of(output) matches Ok(pct) ==> pct <= 100,
        shown_level(output) is None ==> level_of(output) is Err,
        shown_level(output) matches Some(level) ==> (level_of(output) matches Ok(pct)
            ==> text::numeral_value(text::without_plus(level), 10) == pct),
        shown_level(output) matches Some(level) ==> text::numeral_value(
            text::without_plus(level),
            10,
        ) > 100 ==> level_of(output) is Err,
{
    if let Some(level) = shown_level(output) {
        lemma_shown_is_numeral(text::lines_of(output), 0);
        if text::parse_of(level, 10, 100) is Some {
            lemma_digits_are_natural(text::without_plus(level));
        }
    }
}

proof fn lemma_digits_are_natural(s: Seq<char>)
    requires
        text::all_digits(s, 10),
    ensures
        text::numeral_value(s, 10) >= 0,
    decreases s.len(),
{
    if s.len() > 0 {
        assert forall|i: int| 0 <= i < s.drop_last().len() implies text::digit_value(
            #[trigger] s.drop_last()[i],
        ) < 10 by {
            assert(s.drop_last()[i] == s[i]);
        }
        lemma_digits_are_natural(s.drop_last());
    }
}

proof fn lemma_shown_is_numeral(lines: Seq<Seq<char>>, from: int)
    requires
        0 <= from <= lines.len(),
    ensures
        first_level(lines, from) matches Some(level) ==> text::is_numeral(level, 10),
    decreases lines.len() - from,
{
    if from < lines.len() {
        lemma_line_level_is_numeral(lines[from], 0);
        lemma_shown_is_numeral(lines, from + 1);
    }
}

proof fn lemma_line_level_is_numeral(line: Seq<char>, from: int)
    requires
        0 <= from <= line.len(),
    ensures
        level_in(line, from) matches Some(level) ==> text::is_numeral(level, 10),
    decreases line.len() - from,
{
    if from < line.len() {
        lemma_line_level_is_numeral(line, from + 1);
    }
}

/// A line belongs to the card of the last header up to it, however many lines lie between;
/// and before the first header a line belongs to none.
pub proof fn law_lines_belong_to_the_last_header(lines: Seq<Seq<char>>, h: int, i: int)
    requires
        -1 <= h <= i < lines.len(),
        forall|k: int| h < k <= i ==> card_header_of(#[trigger] lines[k]) is None,
        h >= 0 ==> card_header_of(lines[h]) is Some,
    ensures
        h >= 0 ==> card_of_line(lines, i) == card_header_of(lines[h]),
        h < 0 ==> card_of_line(lines, i) is None,
    decreases i - h,
{
    if h < i {
        assert(card_header_of(lines[i]) is None);
        if i > 0 {
            law_lines_belong_to_the_last_header(lines, h, i - 1);
        } else {
            assert(card_of_line(lines, -1) is None);
        }
    }
}

/// A name finds the card of the first line that holds it in lower case, among the lines
/// that belong to a card: that of the last header before it.
pub proof fn law_a_name_finds_the_card_above_it(
    cards: Seq<char>,
    name: Seq<char>,
    h: int,
    i: int,
)
    requires
        text::lower_of(text::trim_of(name)).len() > 0,
        0 <= h <= i < text::lines_of(cards).len(),
        card_header_of(text::lines_of(cards)[h]) is Some,
        forall|k: int|
            h < k <= i ==> card_header_of(#[trigger] text::lines_of(cards)[k]) is None,
        text::contains_text(
            text::lower_of(text::lines_of(cards)[i]),
            text::lower_of(text::trim_of(name)),
        ),
        forall|j: int|
            0 <= j < i ==> !text::contains_text(
                text::lower_of(#[trigger] text::lines_of(cards)[j]),
                text::lower_of(text::trim_of(name)),
            ),
    ensures
        card_named(cards, name) == card_header_of(text::lines_of(cards)[h]),
{
    let lines = text::lines_of(cards);
    let lowered = lower_lines(lines);
    let needle = text::lower_of(text::trim_of(name));
    law_lines_belong_to_the_last_header(lines, h, i);
    assert(lowered[i] == text::lower_of(lines[i]));
    assert forall|j: int| 0 <= j < i implies !line_names_card(lines, lowered, needle, j) by {
        assert(lowered[j] == text::lower_of(lines[j]));
    }
    lemma_first_card_is(lines, lowered, needle, 0, i);
}

/// A name that only stands before the first header finds no card there.
pub proof fn law_what_precedes_the_cards_is_passed_over(
    cards: Seq<char>,
    name: Seq<char>,
    first: int,
)
    requires
        0 <= first <= text::lines_of(cards).len(),
        forall|k: int|
            0 <= k < first ==> card_header_of(#[trigger] text::lines_of(cards)[k]) is None,
        forall|j: int|
            first <= j < text::lines_of(cards).len() ==> !text::contains_text(
                text::lower_of(#[trigger] text::lines_of(cards)[j]),
                text::lower_of(text::trim_of(name)),
            ),
    ensures
        card_named(cards, name) is None,
{
    let lines = text::lines_of(cards);
    let lowered = lower_lines(lines);
    let needle = text::lower_of(text::trim_of(name));
    assert forall|j: int| 0 <= j < lines.len() implies !line_names_card(
        lines,
        lowered,
        needle,
        j,
    ) by {
        if j < first {
            law_lines_belong_to_the_last_header(lines, -1, j);
        } else {
            assert(lowered[j] == text::lower_of(lines[j]));
        }
    }
    lemma_first_card(lines, lowered, needle, 0);
}

/// The error for a missing capture control, and that for a run that failed, hold all that
/// is known: what was wanted or written, the card, and what the card has.
pub proof fn law_mixer_errors_tell_all(
    card: u8,
    wanted: Seq<char>,
    names: Seq<Seq<char>>,
    stderr: Seq<char>,
)
    requires
        names.len() > 0,
    ensures
        none_of_these(wanted, Some(card), names) == AudioErrorView::Command(
            "none of the configured mic controls "@ + wanted + " exist on card "@
                + text::decimal_of(card as nat) + "; available: "@ + text::joined(names, ", "@),
        ),
        none_of_these(wanted, None, names) == AudioErrorView::Command(
            "none of the configured mic controls "@ + wanted + " exist on card "@ + "(default)"@
                + "; available: "@ + text::joined(names, ", "@),
        ),
        amixer_failure(Some(card), stderr, names) == AudioErrorView::Command(
            stderr + "Available controls on card "@ + text::decimal_of(card as nat) + ": "@
                + text::joined(names, ", "@),
        ),
        amixer_failure(None, stderr, names) == AudioErrorView::Command(
            stderr + "Available controls on card "@ + "(default)"@ + ": "@ + text::joined(
                names,
                ", "@,
            ),
        ),
{
}

/// A mixer error says of which kind it is, and then what is known of it.
pub proof fn law_mixer_errors_have_messages(s: Seq<char>)
    ensures
        AudioErrorView::Command(s).message() == "amixer returned an error: "@ + s,
        AudioErrorView::Parse(s).message() == "failed to parse amixer output: "@ + s,
        AudioErrorView::Io(s).message() == "I/O error invoking amixer: "@ + s,
{
}

/// The listing of controls is read from the output of the command, whether it succeeded or
/// not; and where it could not be run there are none.
pub proof fn law_controls_are_read_from_the_output(
    success: bool,
    stdout: Vec<u8>,
    stderr: Vec<u8>,
    e: String,
)
    ensures
        listed_controls(CommandOutcome::Exited { success, stdout, stderr }) == control_names_of(
            text::text_of_bytes(stdout@),
        ),
        listed_controls(CommandOutcome::Failed(e)).len() == 0,
{
}

/// A level that cannot be had is told with the text that stands in its place, or with the
/// whole output where nothing does.
pub proof fn law_levels_that_cannot_be_had_are_told(output: Seq<char>)
    ensures
        shown_level(output) is None ==> level_of(output) == Err::<u8, AudioErrorView>(
            AudioErrorView::Parse("no percentage found in amixer output: "@ + output),
        ),
        shown_level(output) matches Some(level) ==> text::parse_of(level, 10, 100) is None
            ==> level_of(output) == Err::<u8, AudioErrorView>(
            AudioErrorView::Parse(
                "could not parse percentage '"@ + level + "' from amixer output"@,
            ),
        ),
{
}

} // verus!
