//! Screen layout, event decisions and messages of the e-reader front end.
use vstd::prelude::*;
use crate::text::{decimal, decimal_spec};

verus! {

/// The margin, in pixels, that the hourglass text keeps from the screen's sides.
pub const PADDING: i32 = 40;

/// Half of `v`, rounded toward zero as integer division does.
pub open spec fn half(v: int) -> int {
    if v >= 0 {
        v / 2
    } else {
        -((-v) / 2)
    }
}

/// The text box under the hourglass: its left and top edges, its width, and
/// the height of the text drawn in it last.
#[derive(Debug)]
pub struct Hourglass {
    x: i32,
    y: i32,
    w: i32,
    h: i32,
}

impl View for Hourglass {
    type V = (int, int, int, int);

    closed spec fn view(&self) -> (int, int, int, int) {
        (self.x as int, self.y as int, self.w as int, self.h as int)
    }
}

/// Where the hourglass icon is drawn on a screen of the given size.
pub open spec fn spinner_position_spec(screen_w: int, screen_h: int) -> (int, int) {
    (half(screen_w), half(screen_h) - 20)
}

/// Where the icon of the hourglass goes: the screen's centre, 20 pixels up.
pub fn spinner_position(screen_w: i32, screen_h: i32) -> (r: (i32, i32))
    ensures
        (r.0 as int, r.1 as int) == spinner_position_spec(screen_w as int, screen_h as int),
{
    (screen_w / 2, screen_h / 2 - 20)
}

/// The width of the text under the hourglass on a screen `screen_w` wide.
pub fn text_width(screen_w: i32) -> (r: i32)
    requires
        screen_w as int - PADDING >= i32::MIN,
    ensures
        r == screen_w - PADDING,
{
    screen_w - PADDING
}

/// The text box after texts of the heights `heights` were drawn in turn.
pub open spec fn after_texts(b: (int, int, int, int), heights: Seq<i32>) -> (int, int, int, int)
    decreases heights.len(),
{
    if heights.len() == 0 {
        b
    } else {
        let before = after_texts(b, heights.drop_last());
        (before.0, before.1, before.2, heights.last() as int)
    }
}

/// However many texts are drawn, the box keeps its left edge, top edge and
/// width from when it was placed; its height is that of the text drawn last.
pub proof fn lemma_box_fixed(b: (int, int, int, int), heights: Seq<i32>)
    ensures
        after_texts(b, heights).0 == b.0,
        after_texts(b, heights).1 == b.1,
        after_texts(b, heights).2 == b.2,
        heights.len() > 0 ==> after_texts(b, heights).3 == heights.last(),
        heights.len() == 0 ==> after_texts(b, heights) == b,
    decreases heights.len(),
{
    if heights.len() > 0 {
        lemma_box_fixed(b, heights.drop_last());
    }
}

impl Hourglass {
    /// The text box of an hourglass shown on a screen of the given size:
    /// as wide as the screen less the padding, centred, starting the padding
    /// below the middle, with no text yet. On a screen at least the padding
    /// wide, the box keeps half the padding from each side.
    pub fn place(screen_w: i32, screen_h: i32) -> (r: Hourglass)
        requires
            screen_w as int - PADDING >= i32::MIN,
            half(screen_h as int) + PADDING <= i32::MAX,
        ensures
            r@ == (half(screen_w as int) - half(screen_w - PADDING), half(screen_h as int) + PADDING,
                screen_w - PADDING, 0int),
            screen_w >= PADDING ==> r@.0 == PADDING / 2 && r@.0 + r@.2 + PADDING / 2 == screen_w,
    {
        let tw = screen_w - PADDING;
        Hourglass { x: screen_w / 2 - tw / 2, y: screen_h / 2 + PADDING, w: tw, h: 0 }
    }

    /// Left edge of the text box.
    pub fn x(&self) -> (r: i32)
        ensures
            r == self@.0,
    {
        self.x
    }

    /// Top edge of the text box.
    pub fn y(&self) -> (r: i32)
        ensures
            r == self@.1,
    {
        self.y
    }

    /// Width of the text box.
    pub fn w(&self) -> (r: i32)
        ensures
            r == self@.2,
    {
        self.w
    }

    /// Height of the text drawn last.
    pub fn h(&self) -> (r: i32)
        ensures
            r == self@.3,
    {
        self.h
    }

    /// Records that new text of height `text_height` was drawn, and gives the
    /// height of the area to refresh: the taller of the old and the new text,
    /// so that the old text is wiped too.
    pub fn set_text_height(&mut self, text_height: i32) -> (r: i32)
        ensures
            final(self)@ == (old(self)@.0, old(self)@.1, old(self)@.2, text_height as int),
            final(self)@ == after_texts(old(self)@, seq![text_height]),
            r == if text_height >= old(self)@.3 { text_height as int } else { old(self)@.3 },
            r >= text_height && r >= old(self)@.3,
    {
        assert(seq![text_height].drop_last() =~= Seq::<i32>::empty());
        proof { reveal_with_fuel(after_texts, 2); }
        let r = if text_height >= self.h { text_height } else { self.h };
        self.h = text_height;
        r
    }
}

/// The event that the e-reader sends once the application has started.
pub const EVT_INIT: i32 = 21;
/// The event that asks the application to quit.
pub const EVT_EXIT: i32 = 22;
/// The event of a key press.
pub const EVT_KEYPRESS: i32 = 25;
/// The event that the application sends itself to run its task a step further.
pub const EVT_POLL: i32 = 9999;

/// What the event handler does for an event.
#[derive(Debug, Clone, Copy, PartialEq, Eq, Structural)]
pub enum EventAction {
    /// Clear the screen, set the font, and send the first poll event.
    Start,
    /// Close the application.
    Close,
    /// Run the task a step further.
    Poll,
    /// Nothing.
    Ignore,
}

/// What the event handler does for the event `evt`.
pub open spec fn event_action_spec(evt: i32) -> EventAction {
    if evt == EVT_INIT {
        EventAction::Start
    } else if evt == EVT_EXIT || evt == EVT_KEYPRESS {
        EventAction::Close
    } else if evt == EVT_POLL {
        EventAction::Poll
    } else {
        EventAction::Ignore
    }
}

/// The handler closes the application for the exit event (22) and a key
/// press (25) and for nothing else; it starts on the init event (21), runs
/// the task on its poll event (9999), and ignores every other event, so a
/// touch or any other event leaves the running task alone.
pub proof fn lemma_event_actions(evt: i32)
    ensures
        (event_action_spec(evt) == EventAction::Close) <==> (evt == 22 || evt == 25),
        (event_action_spec(evt) == EventAction::Start) <==> evt == 21,
        (event_action_spec(evt) == EventAction::Poll) <==> evt == 9999,
        (evt != 21 && evt != 22 && evt != 25 && evt != 9999) <==> event_action_spec(evt) == EventAction::Ignore,
{
}

/// Chooses what the event handler does for the event `evt`.
pub fn event_action(evt: i32) -> (r: EventAction)
    ensures
        r == event_action_spec(evt),
{
    if evt == EVT_INIT {
        EventAction::Start
    } else if evt == EVT_EXIT || evt == EVT_KEYPRESS {
        EventAction::Close
    } else if evt == EVT_POLL {
        EventAction::Poll
    } else {
        EventAction::Ignore
    }
}

/// After a step of the task: close once it is done, else poll again.
pub fn after_poll(done: bool) -> (r: EventAction)
    ensures
        r == if done { EventAction::Close } else { EventAction::Poll },
{
    if done { EventAction::Close } else { EventAction::Poll }
}

/// The Drive search query for the files in the folder `folder_id`.
pub fn folder_query(folder_id: &str) -> (r: String)
    ensures
        r@ == "'"@ + folder_id@ + "' in parents"@,
{
    String::from_str("'").concat(folder_id).concat("' in parents")
}

/// `n` in decimal with at least two digits, as `format!("{:02}", n)` writes it.
pub open spec fn two_digits_spec(n: nat) -> Seq<char> {
    if n < 10 {
        "0"@ + decimal_spec(n)
    } else {
        decimal_spec(n)
    }
}

/// The progress message while the file `name` is downloaded.
pub open spec fn progress_spec(name: Seq<char>, percent: nat) -> Seq<char> {
    "Downloading "@ + name + "... ("@ + two_digits_spec(percent) + "%)"@
}

/// The message before the download of `name` starts.
pub open spec fn download_start_spec(name: Seq<char>) -> Seq<char> {
    "Downloading "@ + name + "..."@
}

/// The message at the end: how many files were downloaded.
pub open spec fn finished_spec(count: nat) -> Seq<char> {
    "Downloaded "@ + decimal_spec(count) + " files"@
}

/// The progress message while the file `name` is downloaded.
pub fn progress_text(name: &str, percent: u64) -> (r: String)
    ensures
        r@ == progress_spec(name@, percent as nat),
{
    let digits = if percent < 10 {
        String::from_str("0").concat(decimal(percent).as_str())
    } else {
        decimal(percent)
    };
    String::from_str("Downloading ").concat(name).concat("... (").concat(digits.as_str()).concat("%)")
}

/// The message before the download of `name` starts.
pub fn download_start_text(name: &str) -> (r: String)
    ensures
        r@ == download_start_spec(name@),
{
    String::from_str("Downloading ").concat(name).concat("...")
}

/// The message at the end: how many files were downloaded.
pub fn finished_text(count: u64) -> (r: String)
    ensures
        r@ == finished_spec(count as nat),
{
    String::from_str("Downloaded ").concat(decimal(count).as_str()).concat(" files")
}

} // verus!
