//! The ids that menu items carry, and what a click on each of them asks for.
use crate::members::{dotted, push_ip, text_of, Ipv4};
use crate::text::{after_prefix, lemma_after_prefix_of_concat, same_text, strip_prefix};
use vstd::prelude::*;

verus! {

/// A request to the daemon.
#[derive(Debug, PartialEq, Eq)]
pub enum Request {
    Status,
    /// Take a network, or all of them, off standby.
    Resume { hostname: Option<String>, network: Option<String> },
    /// Put a network, or all of them, on standby.
    Standby { network: Option<String> },
}

/// Mathematical model of a [`Request`].
pub enum RequestView {
    Status,
    Resume { hostname: Option<Seq<char>>, network: Option<Seq<char>> },
    Standby { network: Option<Seq<char>> },
}

impl View for Request {
    type V = RequestView;

    open spec fn view(&self) -> RequestView {
        match *self {
            Request::Status => RequestView::Status,
            Request::Resume { hostname, network } => RequestView::Resume {
                hostname: text_of(hostname),
                network: text_of(network),
            },
            Request::Standby { network } => RequestView::Standby { network: text_of(network) },
        }
    }
}

/// What a click on a menu item asks for.
#[derive(Debug, PartialEq, Eq)]
pub enum ClickAction {
    /// Send a request to the daemon.
    Send { request: Request },
    /// Put this text on the clipboard.
    CopyToClipboard { text: String },
    /// Open the dashboard in a browser.
    OpenWebui,
    /// The id has no meaning.
    Nothing,
}

/// Mathematical model of a [`ClickAction`].
pub enum ClickView {
    Send { request: RequestView },
    CopyToClipboard { text: Seq<char> },
    OpenWebui,
    Nothing,
}

impl View for ClickAction {
    type V = ClickView;

    open spec fn view(&self) -> ClickView {
        match *self {
            ClickAction::Send { request } => ClickView::Send { request: request@ },
            ClickAction::CopyToClipboard { text } => ClickView::CopyToClipboard { text: text@ },
            ClickAction::OpenWebui => ClickView::OpenWebui,
            ClickAction::Nothing => ClickView::Nothing,
        }
    }
}

/// The id of the item that toggles a network: it names what a click does.
pub open spec fn toggle_id(network: Seq<char>, active: bool) -> Seq<char> {
    if active {
        "standby:"@ + network
    } else {
        "resume:"@ + network
    }
}

/// The text of the item that toggles a network.
pub open spec fn toggle_text(network: Seq<char>, active: bool) -> Seq<char> {
    if active {
        "Standby \""@ + network + "\""@
    } else {
        "Resume \""@ + network + "\""@
    }
}

/// The id of a member row.
pub open spec fn member_id(ip: Ipv4) -> Seq<char> {
    "copy_member_ip:"@ + dotted(ip)
}

/// What a click on the item with this id asks for.
pub open spec fn clicked(id: Seq<char>) -> ClickView {
    match after_prefix(id, "resume:"@) {
        Some(net) => ClickView::Send {
            request: RequestView::Resume { hostname: None, network: Some(net) },
        },
        None => match after_prefix(id, "standby:"@) {
            Some(net) => ClickView::Send { request: RequestView::Standby { network: Some(net) } },
            None => if id == "resume_all"@ {
                ClickView::Send { request: RequestView::Resume { hostname: None, network: None } }
            } else if id == "standby_all"@ {
                ClickView::Send { request: RequestView::Standby { network: None } }
            } else {
                match after_prefix(id, "copy_member_ip:"@) {
                    Some(ip) => ClickView::CopyToClipboard { text: ip },
                    None => if id == "open_webui"@ {
                        ClickView::OpenWebui
                    } else {
                        ClickView::Nothing
                    },
                }
            },
        },
    }
}

/// The id of the item that toggles a network.
pub fn make_toggle_id(network: &str, active: bool) -> (r: String)
    ensures
        r@ == toggle_id(network@, active),
{
    let mut out: String = String::new();
    if active {
        out.append("standby:");
    } else {
        out.append("resume:");
    }
    out.append(network);
    assert(out@ == toggle_id(network@, active));
    out
}

/// The text of the item that toggles a network.
pub fn make_toggle_text(network: &str, active: bool) -> (r: String)
    ensures
        r@ == toggle_text(network@, active),
{
    let mut out: String = String::new();
    if active {
        out.append("Standby \"");
    } else {
        out.append("Resume \"");
    }
    out.append(network);
    out.append("\"");
    assert(out@ == toggle_text(network@, active));
    out
}

/// The id of a member row.
pub fn make_member_id(ip: Ipv4) -> (r: String)
    ensures
        r@ == member_id(ip),
{
    let mut out: String = String::new();
    out.append("copy_member_ip:");
    push_ip(&mut out, ip);
    assert(out@ == member_id(ip));
    out
}

/// What a click on the item with this id asks for.
pub fn handle_click(id: &str) -> (r: ClickAction)
    ensures
        r@ == clicked(id@),
{
    if let Some(net) = strip_prefix(id, "resume:") {
        ClickAction::Send { request: Request::Resume { hostname: None, network: Some(net) } }
    } else if let Some(net) = strip_prefix(id, "standby:") {
        ClickAction::Send { request: Request::Standby { network: Some(net) } }
    } else if same_text(id, "resume_all") {
        ClickAction::Send { request: Request::Resume { hostname: None, network: None } }
    } else if same_text(id, "standby_all") {
        ClickAction::Send { request: Request::Standby { network: None } }
    } else if let Some(ip) = strip_prefix(id, "copy_member_ip:") {
        ClickAction::CopyToClipboard { text: ip }
    } else if same_text(id, "open_webui") {
        ClickAction::OpenWebui
    } else {
        ClickAction::Nothing
    }
}

/// A click on the toggle of a network that is active puts exactly that network
/// on standby, and a click on one that is on standby resumes exactly that
/// network, whatever its name is.
pub proof fn law_toggle_click(network: Seq<char>, active: bool)
    ensures
        clicked(toggle_id(network, active)) == (if active {
            ClickView::Send { request: RequestView::Standby { network: Some(network) } }
        } else {
            ClickView::Send {
                request: RequestView::Resume { hostname: None, network: Some(network) },
            }
        }),
{
    lemma_after_prefix_of_concat("resume:"@, network);
    lemma_after_prefix_of_concat("standby:"@, network);
    if active {
        reveal_strlit("resume:");
        reveal_strlit("standby:");
        let id = "standby:"@ + network;
        assert(id[0] == 's');
        assert(id.take("resume:"@.len() as int)[0] == id[0]);
        assert("resume:"@[0] == 'r');
    }
}

/// A click on a member row copies the address of exactly that row.
pub proof fn law_member_click(ip: Ipv4)
    ensures
        clicked(member_id(ip)) == (ClickView::CopyToClipboard { text: dotted(ip) }),
{
    reveal_strlit("resume:");
    reveal_strlit("standby:");
    reveal_strlit("resume_all");
    reveal_strlit("standby_all");
    reveal_strlit("copy_member_ip:");
    lemma_after_prefix_of_concat("copy_member_ip:"@, dotted(ip));
    let id = member_id(ip);
    assert(id[0] == 'c');
    assert(id.take("resume:"@.len() as int)[0] == id[0]);
    assert(id.take("standby:"@.len() as int)[0] == id[0]);
    assert("resume:"@[0] == 'r');
    assert("standby:"@[0] == 's');
    assert("resume_all"@[0] == 'r');
    assert("standby_all"@[0] == 's');
}

/// The actions that concern all networks name no network.
pub proof fn law_global_clicks()
    ensures
        clicked("resume_all"@) == (ClickView::Send {
            request: RequestView::Resume { hostname: None, network: None },
        }),
        clicked("standby_all"@) == (ClickView::Send {
            request: RequestView::Standby { network: None },
        }),
        clicked("open_webui"@) == ClickView::OpenWebui,
{
    reveal_strlit("resume:");
    reveal_strlit("standby:");
    reveal_strlit("resume_all");
    reveal_strlit("standby_all");
    reveal_strlit("copy_member_ip:");
    reveal_strlit("open_webui");
    assert("resume_all"@.take(7)[6] == '_');
    assert("resume:"@[6] == ':');
    assert("resume_all"@[0] == 'r');
    assert("resume_all"@.take(8)[0] == 'r');
    assert("standby:"@[0] == 's');
    assert("standby_all"@.take(7)[0] == 's');
    assert("resume:"@[0] == 'r');
    assert("standby_all"@.take(8)[7] == '_');
    assert("standby:"@[7] == ':');
    assert("standby_all"@[0] == 's');
    assert("open_webui"@[0] == 'o');
    assert("open_webui"@.take(7)[0] == 'o');
    assert("open_webui"@.take(8)[0] == 'o');
}

/// No item of a submenu quits the program, whatever the network is called.
pub proof fn law_submenu_items_do_not_quit(network: Seq<char>, active: bool, ip: Ipv4)
    ensures
        toggle_id(network, active) != "quit"@,
        member_id(ip) != "quit"@,
{
    reveal_strlit("resume:");
    reveal_strlit("standby:");
    reveal_strlit("copy_member_ip:");
    reveal_strlit("quit");
    assert(toggle_id(network, active)[0] != 'q');
    assert(member_id(ip)[0] != 'q');
    assert("quit"@[0] == 'q');
}

/// What an id means follows from what it starts with, and the rest of it is the
/// network or the address that it names.
pub proof fn law_click_names_what_follows(rest: Seq<char>)
    ensures
        clicked("resume:"@ + rest) == (ClickView::Send {
            request: RequestView::Resume { hostname: None, network: Some(rest) },
        }),
        clicked("standby:"@ + rest) == (ClickView::Send {
            request: RequestView::Standby { network: Some(rest) },
        }),
        clicked("copy_member_ip:"@ + rest) == (ClickView::CopyToClipboard { text: rest }),
{
    reveal_strlit("resume:");
    reveal_strlit("standby:");
    reveal_strlit("resume_all");
    reveal_strlit("standby_all");
    reveal_strlit("copy_member_ip:");
    lemma_after_prefix_of_concat("resume:"@, rest);
    lemma_after_prefix_of_concat("standby:"@, rest);
    lemma_after_prefix_of_concat("copy_member_ip:"@, rest);
    let s = "standby:"@ + rest;
    let c = "copy_member_ip:"@ + rest;
    assert(s.take(7)[0] == 's' && "resume:"@[0] == 'r');
    assert(c.take(7)[0] == 'c' && c.take(8)[0] == 'c' && "standby:"@[0] == 's');
    assert(c[0] == 'c' && "resume_all"@[0] == 'r' && "standby_all"@[0] == 's');
}

/// Every other id means nothing.
pub proof fn law_other_ids_mean_nothing(id: Seq<char>)
    requires
        !"resume:"@.is_prefix_of(id),
        !"standby:"@.is_prefix_of(id),
        !"copy_member_ip:"@.is_prefix_of(id),
        id != "resume_all"@,
        id != "standby_all"@,
        id != "open_webui"@,
    ensures
        clicked(id) == ClickView::Nothing,
{
    if "resume:"@.len() <= id.len() {
        assert(id.take("resume:"@.len() as int) =~= id.subrange(0, "resume:"@.len() as int));
    }
    if "standby:"@.len() <= id.len() {
        assert(id.take("standby:"@.len() as int) =~= id.subrange(0, "standby:"@.len() as int));
    }
    if "copy_member_ip:"@.len() <= id.len() {
        let n = "copy_member_ip:"@.len() as int;
        assert(id.take(n) =~= id.subrange(0, n));
    }
}

/// The toggle says what a click on it does, and names the network as it is.
pub proof fn law_toggle_names_network(network: Seq<char>)
    ensures
        toggle_id(network, true) == "standby:"@ + network,
        toggle_id(network, false) == "resume:"@ + network,
        toggle_text(network, true) == "Standby \""@ + network + "\""@,
        toggle_text(network, false) == "Resume \""@ + network + "\""@,
{
}

/// The id of a row holds its address.
pub proof fn law_row_id_holds_address(ip: Ipv4)
    ensures
        member_id(ip) == "copy_member_ip:"@ + dotted(ip),
{
}

/// The model of a request and of what a click asks for hold what these hold.
pub proof fn law_click_models(network: Option<String>, hostname: Option<String>, text: String)
    ensures
        Request::Status@ == RequestView::Status,
        (Request::Resume { hostname, network })@ == (RequestView::Resume {
            hostname: text_of(hostname),
            network: text_of(network),
        }),
        (Request::Standby { network })@ == (RequestView::Standby { network: text_of(network) }),
        (ClickAction::CopyToClipboard { text })@ == (ClickView::CopyToClipboard { text: text@ }),
        ClickAction::OpenWebui@ == ClickView::OpenWebui,
        ClickAction::Nothing@ == ClickView::Nothing,
        text_of(None) is None,
        text_of(Some(text)) == Some(text@),
{
}

/// The model of a request that is to be sent is that of the request.
pub proof fn law_send_model(request: Request)
    ensures
        (ClickAction::Send { request })@ == (ClickView::Send { request: request@ }),
{
}

} // verus!
