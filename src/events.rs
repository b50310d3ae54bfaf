//! The timestamped, append-only log that the engine reports into.
use vstd::prelude::*;
use crate::text::is_digit;

verus! {

/// A clock time written `HH:MM:SS`.
pub open spec fn is_clock_text(t: Seq<char>) -> bool {
    &&& t.len() == 8
    &&& t[2] == ':'
    &&& t[5] == ':'
    &&& is_digit(t[0]) && is_digit(t[1])
    &&& is_digit(t[3]) && is_digit(t[4])
    &&& is_digit(t[6]) && is_digit(t[7])
}

/// The messages of log entries, without their timestamps.
pub open spec fn messages_of(entries: Seq<(Seq<char>, Seq<char>)>) -> Seq<Seq<char>> {
    entries.map_values(|e: (Seq<char>, Seq<char>)| e.1)
}

/// A date and time written `<year>MMDD_HHMMSS`: the year of at least four
/// characters, then month, day, hour, minute and second of two digits each,
/// with `_` between the date and the time.
pub open spec fn is_file_stamp(t: Seq<char>) -> bool {
    let n = t.len() as int;
    &&& n >= 15
    &&& t[n - 7] == '_'
    &&& forall|i: int| n - 11 <= i < n - 7 ==> is_digit(#[trigger] t[i])
    &&& forall|i: int| n - 6 <= i < n ==> is_digit(#[trigger] t[i])
}

/// Relies on chrono's `From<SystemTime> for DateTime<Local>` and its
/// `%H:%M:%S` format: the local time of day, as hour, minute and second of
/// two digits each, joined by colons. The conversion takes clocks before 1970
/// too; chrono panics only on a clock beyond its range of years (about
/// 262,000 years away) or on corrupt system time zone data.
#[verifier::external_body]
pub fn get_timestamp() -> (r: String)
    ensures
        is_clock_text(r@),
{
    let now = chrono::DateTime::<chrono::Local>::from(std::time::SystemTime::now());
    now.format("%H:%M:%S").to_string()
}

/// Relies on chrono's `From<SystemTime> for DateTime<Local>` and its
/// `%Y%m%d_%H%M%S` format, for naming files: the year, zero-padded to four
/// digits (with a sign outside 1 to 9999), then month, day, hour, minute and
/// second of two digits each, with `_` between date and time. It panics only
/// as `get_timestamp` does.
#[verifier::external_body]
pub fn get_file_timestamp() -> (r: String)
    ensures
        is_file_stamp(r@),
{
    let now = chrono::DateTime::<chrono::Local>::from(std::time::SystemTime::now());
    now.format("%Y%m%d_%H%M%S").to_string()
}

/// Entries of a time of day and a message, in the order they were added.
pub struct EventLog {
    entries: Vec<(String, String)>,
}

impl View for EventLog {
    type V = Seq<(Seq<char>, Seq<char>)>;

    closed spec fn view(&self) -> Seq<(Seq<char>, Seq<char>)> {
        self.entries@.map_values(|e: (String, String)| (e.0@, e.1@))
    }
}

impl EventLog {
    /// An empty log.
    pub fn new() -> (r: EventLog)
        ensures
            r@ == Seq::<(Seq<char>, Seq<char>)>::empty(),
    {
        let r = EventLog { entries: Vec::new() };
        assert(r@ =~= Seq::<(Seq<char>, Seq<char>)>::empty());
        r
    }

    /// Appends `message`, stamped with the time of day now.
    pub fn add_message(&mut self, message: String)
        ensures
            final(self)@.len() == old(self)@.len() + 1,
            final(self)@.drop_last() == old(self)@,
            final(self)@.last().1 == message@,
            is_clock_text(final(self)@.last().0),
            messages_of(final(self)@) == messages_of(old(self)@).push(message@),
    {
        let timestamp = get_timestamp();
        let ghost m = message@;
        self.entries.push((timestamp, message));
        assert(self@.drop_last() =~= old(self)@);
        assert(messages_of(self@) =~= messages_of(old(self)@).push(m));
    }

    /// Removes every entry.
    pub fn clear(&mut self)
        ensures
            final(self)@ == Seq::<(Seq<char>, Seq<char>)>::empty(),
    {
        self.entries.clear();
        assert(self@ =~= Seq::<(Seq<char>, Seq<char>)>::empty());
    }

    /// The number of entries.
    pub fn len(&self) -> (r: usize)
        ensures
            r == self@.len(),
    {
        self.entries.len()
    }

    /// The entries, oldest first.
    pub fn entries(&self) -> (r: &Vec<(String, String)>)
        ensures
            r@.map_values(|e: (String, String)| (e.0@, e.1@)) == self@,
    {
        &self.entries
    }
}

} // verus!
