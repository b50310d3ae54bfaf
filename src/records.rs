//! The text of what is written to files: the lines of a connection's data
//! file, its name, and the scan log as CSV.
use vstd::prelude::*;
use vstd::string::*;
use crate::events::{get_file_timestamp, is_file_stamp};
use crate::text::{decimal, push_char, push_decimal, push_str};

verus! {

/// A line of a data file: `[timestamp] data`.
pub open spec fn file_line_text(timestamp: Seq<char>, data: Seq<char>) -> Seq<char> {
    seq!['['] + timestamp + seq![']', ' '] + data
}

/// The path of the data file of a connection: `data/<ip>_<port>_<stamp>.txt`.
pub open spec fn data_file_path_text(ip: Seq<char>, port: u16, stamp: Seq<char>) -> Seq<char> {
    "data/"@ + ip + seq!['_'] + decimal(port as nat) + seq!['_'] + stamp + ".txt"@
}

/// The scan log as CSV: a header line, then `timestamp,message` lines.
pub open spec fn csv_text(entries: Seq<(Seq<char>, Seq<char>)>) -> Seq<char>
    decreases entries.len(),
{
    if entries.len() == 0 {
        "time,message\n"@
    } else {
        csv_text(entries.drop_last()) + entries.last().0 + seq![','] + entries.last().1 + seq!['\n']
    }
}

/// A line of a data file: `[timestamp] data`, without the line break.
pub fn file_line(timestamp: &str, data: &str) -> (r: String)
    ensures
        r@ == file_line_text(timestamp@, data@),
{
    let mut r = String::new();
    push_char(&mut r, '[');
    push_str(&mut r, timestamp);
    push_char(&mut r, ']');
    push_char(&mut r, ' ');
    push_str(&mut r, data);
    assert(r@ =~= file_line_text(timestamp@, data@));
    r
}

/// The path of the data file of a connection to `ip` and `port`, opened now.
pub fn data_file_path(ip: &str, port: u16) -> (r: String)
    ensures
        exists|stamp: Seq<char>|
            is_file_stamp(stamp) && r@ == #[trigger] data_file_path_text(ip@, port, stamp),
{
    let stamp = get_file_timestamp();
    data_file_path_at(ip, port, stamp.as_str())
}

/// The path of the data file of a connection to `ip` and `port`, opened at
/// the time `stamp`.
pub fn data_file_path_at(ip: &str, port: u16, stamp: &str) -> (r: String)
    ensures
        r@ == data_file_path_text(ip@, port, stamp@),
{
    let mut r = String::from_str("data/");
    push_str(&mut r, ip);
    push_char(&mut r, '_');
    push_decimal(&mut r, port as u64);
    push_char(&mut r, '_');
    push_str(&mut r, stamp);
    push_str(&mut r, ".txt");
    assert(r@ =~= data_file_path_text(ip@, port, stamp@));
    r
}

/// The scan log as CSV: a header line, then one `timestamp,message` line per
/// entry.
pub fn scan_log_csv(logs: &Vec<(String, String)>) -> (r: String)
    ensures
        r@ == csv_text(logs@.map_values(|e: (String, String)| (e.0@, e.1@))),
{
    let ghost all = logs@.map_values(|e: (String, String)| (e.0@, e.1@));
    let mut r = String::from_str("time,message\n");
    let mut i: usize = 0;
    while i < logs.len()
        invariant
            i <= logs@.len(),
            all == logs@.map_values(|e: (String, String)| (e.0@, e.1@)),
            r@ == csv_text(all.subrange(0, i as int)),
        decreases logs@.len() - i,
    {
        let ghost q = all.subrange(0, i + 1);
        assert(q.drop_last() =~= all.subrange(0, i as int));
        assert(q.last() == (logs@[i as int].0@, logs@[i as int].1@));
        push_str(&mut r, logs[i].0.as_str());
        push_char(&mut r, ',');
        push_str(&mut r, logs[i].1.as_str());
        push_char(&mut r, '\n');
        i = i + 1;
        assert(r@ =~= csv_text(q));
    }
    assert(all.subrange(0, i as int) =~= all);
    r
}

} // verus!
