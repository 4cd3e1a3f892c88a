//! Commands that come in over the web.

use vstd::prelude::*;

use crate::address;
use crate::address::Url;
use crate::json::Json;
use crate::text;
use crate::text::{concat, same};
use crate::thread_url;
use crate::thread_url::{has_known_section, DvachThreadUrl};

verus! {

/// The parameters of the command to watch a thread.
#[derive(Debug)]
pub struct AddThread {
    pub url: String,
}

impl Clone for AddThread {
    fn clone(&self) -> (r: Self)
        ensures
            r.url@ == self.url@,
    {
        AddThread { url: self.url.clone() }
    }
}

/// A command.
#[derive(Debug)]
pub enum FromWeb {
    AddThread(AddThread),
    Stop,
    Ping,
}

impl Clone for FromWeb {
    fn clone(&self) -> (r: Self)
        ensures
            match *self {
                FromWeb::AddThread(add) => r matches FromWeb::AddThread(copy) && copy.url@
                    == add.url@,
                FromWeb::Stop => r is Stop,
                FromWeb::Ping => r is Ping,
            },
    {
        match self {
            FromWeb::AddThread(add) => FromWeb::AddThread(add.clone()),
            FromWeb::Stop => FromWeb::Stop,
            FromWeb::Ping => FromWeb::Ping,
        }
    }
}

/// A message to the planner of threads.
#[derive(Debug)]
pub enum FromUi {
    AddThread(Url),
}

/// The address in the parameters of the command to watch a thread: the member
/// `url` of an object, or the only element of an array.
pub open spec fn thread_param(params: Json) -> Option<Seq<char>> {
    match params {
        Json::Object(_) => match params.field("url"@) {
            Some(url) => url.text(),
            None => None,
        },
        Json::Array(elements) => if elements@.len() == 1 {
            elements@[0].text()
        } else {
            None
        },
        _ => None,
    }
}

/// Whether a value is a command: it names one, it has parameters, and they fit
/// the command.
pub open spec fn is_command(val: Json) -> bool {
    match (val.field("command"@), val.field("params"@)) {
        (Some(command), Some(params)) => {
            ||| command.text() == Some("add_thread"@) && thread_param(params) is Some
            ||| command.text() == Some("stop"@)
        },
        _ => false,
    }
}

impl AddThread {
    /// Reads the parameters of the command to watch a thread.
    pub fn from_params(params: &Json) -> (r: Option<AddThread>)
        ensures
            match r {
                Some(add) => thread_param(*params) == Some(add.url@),
                None => thread_param(*params) is None,
            },
    {
        let url = match params {
            Json::Object(_) => params.get("url"),
            Json::Array(elements) => if elements.len() == 1 {
                Some(&elements[0])
            } else {
                None
            },
            _ => None,
        };
        match url {
            Some(url) => match url.as_str() {
                Some(text) => Some(AddThread { url: text.to_owned() }),
                None => None,
            },
            None => None,
        }
    }
}

impl FromWeb {
    /// Whether a value is a command.
    pub fn accepts(val: &Json) -> (r: bool)
        ensures
            r == is_command(*val),
    {
        match (val.get("command"), val.get("params")) {
            (Some(command), Some(params)) => match command.as_str() {
                Some(name) => same(name, "stop") || (same(name, "add_thread")
                    && AddThread::from_params(params).is_some()),
                None => false,
            },
            _ => false,
        }
    }

    /// Reads a command.
    pub fn parse_command(val: &Json) -> (r: FromWeb)
        requires
            is_command(*val),
        ensures
            match r {
                FromWeb::AddThread(add) => {
                    &&& val.field("command"@)->0.text() == Some("add_thread"@)
                    &&& thread_param(val.field("params"@)->0) == Some(add.url@)
                },
                FromWeb::Stop => val.field("command"@)->0.text() == Some("stop"@),
                FromWeb::Ping => false,
            },
    {
        if let (Some(command), Some(params)) = (val.get("command"), val.get("params")) {
            if let Some(name) = command.as_str() {
                if same(name, "add_thread") {
                    if let Some(add) = AddThread::from_params(params) {
                        return FromWeb::AddThread(add);
                    }
                }
            }
        }
        proof {
            reveal_strlit("add_thread");
            reveal_strlit("stop");
            assert("add_thread"@.len() != "stop"@.len());
        }
        FromWeb::Stop
    }
}

/// What a command asks for.
#[derive(Debug)]
pub enum WebAction {
    /// Hand an address to the planner, then confirm it. Without a confirmation
    /// the address names no thread, and the request fails once the planner has
    /// the address.
    Plan { url: Url, confirmation: Option<String> },
    /// Only reply.
    Reply { reply: String },
    /// Announce the shutdown, then reply.
    Stop { reply: String },
}

/// Whether an address names a thread.
pub open spec fn names_thread(u: address::UrlView) -> bool {
    thread_url::known_section(u) && thread_url::thread_of(u) is Ok
}

/// Whether an address names a thread.
pub fn is_thread(url: &Url) -> (r: bool)
    ensures
        r == names_thread(url@),
        r == (url@.segments matches Some(s) && (s.len() >= 3 && s[1] == "res"@ || s.len() >= 5 && s[1]
            == "arch"@ && s[3] == "res"@)),
{
    proof {
        pages_of_threads_can_be_added(url@);
    }
    has_known_section(url) && DvachThreadUrl::parse(url).is_ok()
}

/// What a command asks for. The address of a thread is taken without its
/// fragment; a text that is no address is refused with the reason.
pub fn web_request(command: FromWeb) -> (r: WebAction)
    ensures
        match command {
            FromWeb::AddThread(raw) => match address::url_parsed(raw.url@) {
                Ok(whole) => {
                    &&& r matches WebAction::Plan { url, confirmation }
                    &&& url@ == address::without_fragment(whole)
                    &&& url@.wf()
                    &&& url@.scheme == whole.scheme
                    &&& url@.host == whole.host
                    &&& url@.segments == whole.segments
                    &&& whole.segments is Some ==> url@.href == text::before_first(whole.href, '#')
                    &&& names_thread(url@) == names_thread(whole)
                    &&& confirmation is Some == (whole.segments matches Some(s) && (s.len() >= 3
                        && s[1] == "res"@ || s.len() >= 5 && s[1] == "arch"@ && s[3] == "res"@))
                    &&& confirmation.deep_view() == (if names_thread(whole) {
                        Some("added"@)
                    } else {
                        None
                    })
                },
                Err(e) => {
                    &&& r matches WebAction::Reply { reply }
                    &&& reply@ == "not valid url: "@ + e
                },
            },
            FromWeb::Ping => r matches WebAction::Reply { reply } && reply@ == "pong"@,
            FromWeb::Stop => r matches WebAction::Stop { reply } && reply@ == "stopping"@,
        },
{
    match command {
        FromWeb::AddThread(raw) => match Url::parse_without_fragment(raw.url.as_str()) {
            Ok(url) => {
                let confirmation = if is_thread(&url) {
                    Some("added".to_owned())
                } else {
                    None
                };
                WebAction::Plan { url, confirmation }
            },
            Err(e) => WebAction::Reply { reply: concat("not valid url: ", e.as_str()) },
        },
        FromWeb::Ping => WebAction::Reply { reply: "pong".to_owned() },
        FromWeb::Stop => WebAction::Stop { reply: "stopping".to_owned() },
    }
}

/// An address can be added exactly where its path is that of a thread's page,
/// `/board/res/file`, or of its page in the archive, `/board/arch/date/res/file`,
/// whatever else the address holds.
pub proof fn pages_of_threads_can_be_added(u: address::UrlView)
    ensures
        names_thread(u) <==> (u.segments matches Some(s) && (s.len() >= 3 && s[1] == "res"@ || s.len() >= 5 && s[1]
            == "arch"@ && s[3] == "res"@)),
{
    thread_url::other_addresses_name_no_thread(u);
    if let Some(s) = u.segments {
        if s.len() >= 3 && s[1] == "res"@ {
            split_file(s[2]);
            let number = text::before_first(s[2], '.');
            thread_url::live_pages_name_their_thread(u, number, s[2].skip(number.len() as int));
        }
        if s.len() >= 5 && s[1] == "arch"@ && s[3] == "res"@ {
            split_file(s[4]);
            let number = text::before_first(s[4], '.');
            thread_url::archived_pages_name_their_thread(
                u,
                number,
                s[4].skip(number.len() as int),
            );
        }
    }
}

proof fn split_file(file: Seq<char>)
    ensures
        ({
            let number = text::before_first(file, '.');
            let ending = file.skip(number.len() as int);
            &&& number.len() <= file.len()
            &&& file == number + ending
            &&& !number.contains('.')
            &&& ending.len() == 0 || ending[0] == '.'
        }),
{
    text::cut_ends_at_the_first(file, '.');
    let number = text::before_first(file, '.');
    assert(file =~= number + file.skip(number.len() as int));
}

/// The parameters of the command to watch a thread: an object gives the text
/// under its `url`, an array of one text gives that text, and nothing else gives
/// an address.
pub proof fn addresses_in_parameters(params: Json)
    ensures
        thread_param(params) is Some ==> params is Object || params is Array,
        params is Object ==> thread_param(params) == (match params.field("url"@) {
            Some(Json::Text(t)) => Some(t@),
            _ => None,
        }),
        params matches Json::Array(elements) ==> {
            &&& elements@.len() != 1 ==> thread_param(params) is None
            &&& elements@.len() == 1 ==> thread_param(params) == (match elements@[0] {
                Json::Text(t) => Some(t@),
                _ => None,
            })
        },
{
}

/// What is taken for a command: an object with parameters that names either the
/// command to stop, or the one to add a thread and gives an address for it.
pub proof fn commands_are_named(val: Json)
    ensures
        is_command(val) <==> {
            &&& val.field("params"@) is Some
            &&& val.field("command"@) matches Some(Json::Text(name))
            &&& name@ == "stop"@ || (name@ == "add_thread"@ && thread_param(
                val.field("params"@)->0,
            ) is Some)
        },
{
}

} // verus!
