//! The texts of the port table: one row of cells per shown record, and the title.

use vstd::prelude::*;
use crate::models::{protocol_text, state_text, ConnectionState, PortRecord};
use crate::text::{chars_are, chars_of, decimal, decimal_string};

verus! {

/// The column headers, left to right.
pub open spec fn header_cells() -> Seq<Seq<char>> {
    seq!["ADDRESS"@, "PORT"@, "PROTO"@, "STATE"@, "PROCESS"@, "PID"@]
}

/// How a local address is shown: the wildcard addresses as `*`.
pub open spec fn address_cell(a: Seq<char>) -> Seq<char> {
    if a == "0.0.0.0"@ || a == "::"@ {
        "*"@
    } else {
        a
    }
}

/// The cells of a record's row: address, port, protocol, state, process name and pid,
/// with `-` for what is unknown.
pub open spec fn row_cells(r: PortRecord) -> Seq<Seq<char>> {
    seq![
        address_cell(r.local_addr@),
        decimal(r.local_port as nat),
        protocol_text(r.protocol),
        state_text(r.state),
        match r.process_name {
            Some(n) => n@,
            None => "-"@,
        },
        match r.pid {
            Some(p) => decimal(p as nat),
            None => "-"@,
        },
    ]
}

/// The title of the table: the number of records, and the filter when one is set.
pub open spec fn table_title(filter: Seq<char>, n: nat) -> Seq<char> {
    if filter.len() == 0 {
        "Ports & Connections ("@ + decimal(n) + " total)"@
    } else {
        "Ports & Connections (filter: '"@ + filter + "', "@ + decimal(n) + " matches)"@
    }
}

/// How a state is coloured: listening, established, or any other state.
#[derive(Debug, Clone, Copy, PartialEq, Eq, Structural)]
pub enum StateTone {
    Listen,
    Established,
    Other,
}

/// The colouring of a state.
pub fn state_tone(s: ConnectionState) -> (t: StateTone)
    ensures
        t == (match s {
            ConnectionState::Listen => StateTone::Listen,
            ConnectionState::Established => StateTone::Established,
            _ => StateTone::Other,
        }),
{
    match s {
        ConnectionState::Listen => StateTone::Listen,
        ConnectionState::Established => StateTone::Established,
        _ => StateTone::Other,
    }
}

/// The column headers.
pub fn header_row() -> (cells: Vec<String>)
    ensures
        cells@.map_values(|s: String| s@) == header_cells(),
{
    let cells = vec![
        String::from_str("ADDRESS"),
        String::from_str("PORT"),
        String::from_str("PROTO"),
        String::from_str("STATE"),
        String::from_str("PROCESS"),
        String::from_str("PID"),
    ];
    assert(cells@.map_values(|s: String| s@) =~= header_cells());
    cells
}

/// The cells of a record's row.
pub fn port_row(r: &PortRecord) -> (cells: Vec<String>)
    ensures
        cells@.map_values(|s: String| s@) == row_cells(*r),
{
    let addr = if chars_are(&chars_of(r.local_addr.as_str()), "0.0.0.0") || chars_are(
        &chars_of(r.local_addr.as_str()),
        "::",
    ) {
        String::from_str("*")
    } else {
        r.local_addr.clone()
    };
    let name = match &r.process_name {
        Some(n) => n.clone(),
        None => String::from_str("-"),
    };
    let pid = match r.pid {
        Some(p) => decimal_string(p as u64),
        None => String::from_str("-"),
    };
    let cells = vec![
        addr,
        decimal_string(r.local_port as u64),
        r.protocol.to_string(),
        r.state.to_string(),
        name,
        pid,
    ];
    assert(cells@.map_values(|s: String| s@) =~= row_cells(*r));
    cells
}

/// The title of the table for a filter and the number of shown records.
pub fn ports_title(filter: &str, count: usize) -> (t: String)
    ensures
        t@ == table_title(filter@, count as nat),
{
    if filter.is_empty() {
        let mut t = String::from_str("Ports & Connections (");
        t.append(decimal_string(count as u64).as_str());
        t.append(" total)");
        t
    } else {
        let mut t = String::from_str("Ports & Connections (filter: '");
        t.append(filter);
        t.append("', ");
        t.append(decimal_string(count as u64).as_str());
        t.append(" matches)");
        t
    }
}

} // verus!
