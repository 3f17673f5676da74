//! The grammar of commands and queries: what the payload of an accepted data
//! frame asks for.

use vstd::prelude::*;
use vstd::utf8::encode_utf8;

use crate::feature::{
    feature_entry, spec_entry, FeatureSupportedView, GDBFeatureSupported, KnownView,
};
use crate::parse::{
    bytes_eq, find_byte, first_index_of, skip, take, ErrorKind, Parsed, ParsedView, SEMICOLON,
};

verus! {

/// `!`: enable extended mode.
pub const LEAD_EXTENDED_MODE: u8 = 0x21;

/// `?`: why did the target halt?
pub const LEAD_HALT_REASON: u8 = 0x3f;

/// `d`: toggle the debug flag.
pub const LEAD_TOGGLE_DEBUG: u8 = 0x64;

/// `g`: read the general registers.
pub const LEAD_READ_REGISTERS: u8 = 0x67;

/// `k`: kill the target.
pub const LEAD_KILL: u8 = 0x6b;

/// `q`: a query follows.
pub const LEAD_QUERY: u8 = 0x71;

/// `r`: reset the system.
pub const LEAD_RESET: u8 = 0x72;

/// `R`: restart the program; two bytes follow.
pub const LEAD_RESTART: u8 = 0x52;

/// `C`: the query for the current thread.
pub const QUERY_CURRENT_THREAD: u8 = 0x43;

/// One entry of a feature list, as a mathematical value.
pub type EntryView = (KnownView, FeatureSupportedView);

/// What the debugger asks of the stub itself.
#[derive(Debug, PartialEq, Eq)]
pub enum Query<'a> {
    /// Return the current thread ID.
    CurrentThread,
    /// Compute the CRC checksum of a block of memory.
    #[allow(unused)]
    CRC { addr: u64, length: u64 },
    /// Tell the remote stub about features supported by gdb, and query the stub for features
    /// it supports.
    SupportedFeatures(Vec<GDBFeatureSupported<'a>>),
}

/// Mathematical counterpart of [`Query`].
pub enum QueryView {
    CurrentThread,
    CRC { addr: u64, length: u64 },
    SupportedFeatures(Seq<EntryView>),
}

/// The views of the entries of a list, in the order of the list.
pub open spec fn entries_view(entries: Seq<GDBFeatureSupported>) -> Seq<EntryView> {
    entries.map_values(|entry: GDBFeatureSupported| entry@)
}

impl<'a> View for Query<'a> {
    type V = QueryView;

    open spec fn view(&self) -> QueryView {
        match *self {
            Query::CurrentThread => QueryView::CurrentThread,
            Query::CRC { addr, length } => QueryView::CRC { addr, length },
            Query::SupportedFeatures(entries) => QueryView::SupportedFeatures(
                entries_view(entries@),
            ),
        }
    }
}

/// GDB remote protocol commands.
#[derive(Debug, PartialEq, Eq)]
pub enum Command<'a> {
    /// Enable extended mode.
    EnableExtendedMode,
    /// Indicate the reason the target halted.
    TargetHaltReason,
    /// Toggle debug flag.
    ToggleDebug,
    /// Read general registers.
    ReadGeneralRegisters,
    /// Kill request.
    Kill,
    /// A query, with what it asks.
    Query(Query<'a>),
    /// Reset the system, or restart the program.
    Reset,
}

/// Mathematical counterpart of [`Command`].
pub enum CommandView {
    EnableExtendedMode,
    TargetHaltReason,
    ToggleDebug,
    ReadGeneralRegisters,
    Kill,
    Query(QueryView),
    Reset,
}

impl<'a> View for Command<'a> {
    type V = CommandView;

    open spec fn view(&self) -> CommandView {
        match *self {
            Command::EnableExtendedMode => CommandView::EnableExtendedMode,
            Command::TargetHaltReason => CommandView::TargetHaltReason,
            Command::ToggleDebug => CommandView::ToggleDebug,
            Command::ReadGeneralRegisters => CommandView::ReadGeneralRegisters,
            Command::Kill => CommandView::Kill,
            Command::Query(query) => CommandView::Query(query@),
            Command::Reset => CommandView::Reset,
        }
    }
}

/// `entries` in front of the list `tail`, where there is such a list.
pub open spec fn prepend(entries: Seq<EntryView>, tail: Option<Seq<EntryView>>) -> Option<
    Seq<EntryView>,
> {
    match tail {
        Some(tail) => Some(entries + tail),
        None => None,
    }
}

/// The entries of a list that holds at least one: `input` is cut at each `;`,
/// and every piece is read as an entry. One piece that is no entry spoils the
/// whole list.
pub open spec fn spec_entries(input: Seq<u8>) -> Option<Seq<EntryView>>
    decreases input.len(),
{
    let end = first_index_of(input, SEMICOLON);
    match spec_entry(input.take(end)) {
        None => None,
        Some(entry) => if 0 <= end < input.len() {
            prepend(seq![entry], spec_entries(input.skip(end + 1)))
        } else {
            Some(seq![entry])
        },
    }
}

/// The entries of a feature list that takes up all of `input`. No input at
/// all is the list without entries.
pub open spec fn spec_feature_list(input: Seq<u8>) -> Option<Seq<EntryView>> {
    if input.len() == 0 {
        Some(Seq::empty())
    } else {
        spec_entries(input)
    }
}

/// The view of an optional list of entries.
pub open spec fn list_view(list: Option<Vec<GDBFeatureSupported>>) -> Option<Seq<EntryView>> {
    match list {
        Some(entries) => Some(entries_view(entries@)),
        None => None,
    }
}

/// Reads all of `input` as a list of feature entries with `;` between them.
pub fn feature_list<'a>(input: &'a [u8]) -> (list: Option<Vec<GDBFeatureSupported<'a>>>)
    ensures
        list_view(list) == spec_feature_list(input@),
{
    let mut list: Vec<GDBFeatureSupported<'a>> = Vec::new();
    if input.len() == 0 {
        assert(entries_view(list@) =~= Seq::empty());
        return Some(list);
    }
    let mut rest = input;
    proof {
        if let Some(all) = spec_entries(rest@) {
            assert(entries_view(list@) + all =~= all);
        }
    }
    loop
        invariant
            input@.len() > 0,
            spec_entries(input@) == prepend(entries_view(list@), spec_entries(rest@)),
        decreases rest@.len(),
    {
        let end = find_byte(rest, SEMICOLON);
        match feature_entry(take(rest, end)) {
            None => {
                return None;
            },
            Some(entry) => {
                let ghost before = entries_view(list@);
                list.push(entry);
                assert(entries_view(list@) =~= before + seq![entry@]);
                if end == rest.len() {
                    return Some(list);
                }
                proof {
                    let tail = spec_entries(rest@.skip(end + 1));
                    if let Some(tail) = tail {
                        assert(before + (seq![entry@] + tail) =~= entries_view(list@) + tail);
                    }
                }
                rest = skip(rest, end + 1);
            },
        }
    }
}

/// The bytes `Supported:`, which open the query that negotiates features.
pub open spec fn supported_tag() -> Seq<u8> {
    encode_utf8("Supported:"@)
}

/// What `query` makes of `input`. After `q` comes either the one byte `C`, or
/// `Supported:` and a feature list that runs to the end of the input. A query
/// takes up the whole input.
pub open spec fn spec_query(input: Seq<u8>) -> ParsedView<QueryView> {
    if input.len() == 0 || input[0] != LEAD_QUERY {
        ParsedView::Error(ErrorKind::UnrecognizedQuery)
    } else {
        let text = input.skip(1);
        let tag = supported_tag();
        if text == seq![QUERY_CURRENT_THREAD] {
            ParsedView::Done(Seq::empty(), QueryView::CurrentThread)
        } else if tag.is_prefix_of(text) {
            match spec_feature_list(text.skip(tag.len() as int)) {
                Some(entries) => ParsedView::Done(
                    Seq::empty(),
                    QueryView::SupportedFeatures(entries),
                ),
                None => ParsedView::Error(ErrorKind::MalformedFeatureEntry),
            }
        } else {
            ParsedView::Error(ErrorKind::UnrecognizedQuery)
        }
    }
}

/// Parses a query: `q` and what it asks.
pub fn query<'a>(input: &'a [u8]) -> (parsed: Parsed<'a, Query<'a>>)
    ensures
        parsed@ == spec_query(input@),
{
    if input.len() == 0 || input[0] != LEAD_QUERY {
        return Parsed::Error(ErrorKind::UnrecognizedQuery);
    }
    let text = skip(input, 1);
    let end = skip(input, input.len());
    assert(end@ =~= Seq::empty());
    let tag = "Supported:".as_bytes();
    if text.len() == 1 && text[0] == QUERY_CURRENT_THREAD {
        assert(text@ =~= seq![QUERY_CURRENT_THREAD]);
        Parsed::Done(end, Query::CurrentThread)
    } else if tag.len() <= text.len() && bytes_eq(take(text, tag.len()), tag) {
        match feature_list(skip(text, tag.len())) {
            Some(entries) => Parsed::Done(end, Query::SupportedFeatures(entries)),
            None => Parsed::Error(ErrorKind::MalformedFeatureEntry),
        }
    } else {
        assert(!supported_tag().is_prefix_of(text@)) by {
            if supported_tag().is_prefix_of(text@) {
                assert(text@.take(tag@.len() as int) =~= tag@);
            }
        }
        Parsed::Error(ErrorKind::UnrecognizedQuery)
    }
}

/// What `command` makes of `input`: the command that its first byte names.
/// `R` stands with the two bytes that follow it, which are not looked at; `q`
/// stands with the whole query. What follows a command is left over.
pub open spec fn spec_command(input: Seq<u8>) -> ParsedView<CommandView> {
    if input.len() == 0 {
        ParsedView::Error(ErrorKind::UnsupportedCommand)
    } else if input[0] == LEAD_EXTENDED_MODE {
        ParsedView::Done(input.skip(1), CommandView::EnableExtendedMode)
    } else if input[0] == LEAD_HALT_REASON {
        ParsedView::Done(input.skip(1), CommandView::TargetHaltReason)
    } else if input[0] == LEAD_TOGGLE_DEBUG {
        ParsedView::Done(input.skip(1), CommandView::ToggleDebug)
    } else if input[0] == LEAD_READ_REGISTERS {
        ParsedView::Done(input.skip(1), CommandView::ReadGeneralRegisters)
    } else if input[0] == LEAD_KILL {
        ParsedView::Done(input.skip(1), CommandView::Kill)
    } else if input[0] == LEAD_QUERY {
        match spec_query(input) {
            ParsedView::Done(rest, query) => ParsedView::Done(rest, CommandView::Query(query)),
            ParsedView::Incomplete(n) => ParsedView::Incomplete(n),
            ParsedView::Error(e) => ParsedView::Error(e),
        }
    } else if input[0] == LEAD_RESET {
        ParsedView::Done(input.skip(1), CommandView::Reset)
    } else if input[0] == LEAD_RESTART && input.len() >= 3 {
        ParsedView::Done(input.skip(3), CommandView::Reset)
    } else {
        ParsedView::Error(ErrorKind::UnsupportedCommand)
    }
}

/// Parses the command at the start of a payload.
pub fn command<'a>(input: &'a [u8]) -> (parsed: Parsed<'a, Command<'a>>)
    ensures
        parsed@ == spec_command(input@),
{
    if input.len() == 0 {
        return Parsed::Error(ErrorKind::UnsupportedCommand);
    }
    let lead = input[0];
    if lead == LEAD_EXTENDED_MODE {
        Parsed::Done(skip(input, 1), Command::EnableExtendedMode)
    } else if lead == LEAD_HALT_REASON {
        Parsed::Done(skip(input, 1), Command::TargetHaltReason)
    } else if lead == LEAD_TOGGLE_DEBUG {
        Parsed::Done(skip(input, 1), Command::ToggleDebug)
    } else if lead == LEAD_READ_REGISTERS {
        Parsed::Done(skip(input, 1), Command::ReadGeneralRegisters)
    } else if lead == LEAD_KILL {
        Parsed::Done(skip(input, 1), Command::Kill)
    } else if lead == LEAD_QUERY {
        match query(input) {
            Parsed::Done(rest, query) => Parsed::Done(rest, Command::Query(query)),
            Parsed::Incomplete(n) => Parsed::Incomplete(n),
            Parsed::Error(e) => Parsed::Error(e),
        }
    } else if lead == LEAD_RESET {
        Parsed::Done(skip(input, 1), Command::Reset)
    } else if lead == LEAD_RESTART && input.len() >= 3 {
        Parsed::Done(skip(input, 3), Command::Reset)
    } else {
        Parsed::Error(ErrorKind::UnsupportedCommand)
    }
}

/// A payload is whole when it is decoded, so its grammar never asks for more
/// input: a payload is a command or it is rejected.
pub proof fn payload_grammar_is_decided(input: Seq<u8>)
    ensures
        !(spec_query(input) is Incomplete),
        !(spec_command(input) is Incomplete),
{
}

} // verus!
