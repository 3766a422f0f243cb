//! From what the user configured to the values that a session runs on: the
//! proxy to go through, if any, and the credential to present to it.
//!
//! A proxy named outright wins over one found in a proxy URL, such as the
//! value of `http_proxy`; without either the destination is reached directly.
//! A credential read from a file wins over the user information of the proxy
//! URL.

use vstd::prelude::*;
use vstd::string::*;

verus! {

/// The port taken for a proxy URL that names none and whose scheme has no
/// port of its own.
pub const DEFAULT_PROXY_PORT: u16 = 8080;

/// The parts of a parsed URL that matter here, as plain values.
pub struct UrlParts {
    /// The host, if the URL has one.
    pub host: Option<Seq<char>>,
    /// The port of the URL or of its scheme, if either is known.
    pub port: Option<u16>,
    /// The user name; empty if the URL has none.
    pub username: Seq<char>,
    /// The password, if the URL has one.
    pub password: Option<Seq<char>>,
}

/// A proxy URL, taken apart.
#[derive(Debug, PartialEq, Eq)]
pub struct ProxyUrl {
    /// The host as the URL writes it, if it has one.
    pub host: Option<String>,
    /// The port that the URL names, or else the usual port of its scheme, if
    /// that is known.
    pub port: Option<u16>,
    /// The user name; empty if the URL has none.
    pub username: String,
    /// The password, if the URL has one.
    pub password: Option<String>,
}

impl View for ProxyUrl {
    type V = UrlParts;

    open spec fn view(&self) -> UrlParts {
        UrlParts {
            host: match self.host {
                Some(host) => Some(host@),
                None => None,
            },
            port: self.port,
            username: self.username@,
            password: match self.password {
                Some(password) => Some(password@),
                None => None,
            },
        }
    }
}

/// The parts of `text` read as an absolute URL, or `None` where it is none.
///
/// Parsing is the work of the `url` crate; this name stands for what it finds.
pub uninterp spec fn parsed_url(text: Seq<char>) -> Option<UrlParts>;

/// `url::ParseError`, the parser's reason for refusing a text. It is carried
/// through as it is; nothing here looks inside.
#[verifier::external_type_specification]
#[verifier::external_body]
pub struct ExParseError(url::ParseError);

/// Parses `text` with `url::Url::parse` and copies out of the result what
/// `Url::host_str`, `Url::port_or_known_default`, `Url::username` and
/// `Url::password` return.
///
/// Trusted: whether the text parses, and the four parts if it does, are a
/// function of the text alone, named [`parsed_url`].
#[verifier::external_body]
fn parse_url(text: &str) -> (parsed: Result<ProxyUrl, url::ParseError>)
    ensures
        match parsed {
            Ok(url) => parsed_url(text@) == Some(url@),
            Err(_) => parsed_url(text@) is None,
        },
{
    let url = url::Url::parse(text)?;
    Ok(
        ProxyUrl {
            host: url.host_str().map(String::from),
            port: url.port_or_known_default(),
            username: String::from(url.username()),
            password: url.password().map(String::from),
        },
    )
}

/// A text that is no absolute URL, with the parser's reason.
#[derive(Debug)]
pub struct InvalidUrl {
    /// Why the parser refused the text.
    pub reason: url::ParseError,
}

impl ProxyUrl {
    /// Parses a proxy URL.
    pub fn parse(text: &str) -> (parsed: Result<ProxyUrl, InvalidUrl>)
        ensures
            match parsed {
                Ok(url) => parsed_url(text@) == Some(url@),
                Err(_) => parsed_url(text@) is None,
            },
    {
        match parse_url(text) {
            Ok(url) => Ok(url),
            Err(reason) => Err(InvalidUrl { reason }),
        }
    }
}

/// The decimal digit for `value`, which is below ten.
pub open spec fn digit(value: nat) -> char {
    if value == 0 {
        '0'
    } else if value == 1 {
        '1'
    } else if value == 2 {
        '2'
    } else if value == 3 {
        '3'
    } else if value == 4 {
        '4'
    } else if value == 5 {
        '5'
    } else if value == 6 {
        '6'
    } else if value == 7 {
        '7'
    } else if value == 8 {
        '8'
    } else {
        '9'
    }
}

/// `value` in decimal digits, without leading zeros.
pub open spec fn decimal(value: nat) -> Seq<char>
    decreases value,
{
    if value < 10 {
        seq![digit(value)]
    } else {
        decimal(value / 10).push(digit(value % 10))
    }
}

/// The address `host:port` of the proxy that a URL points to, where it has a
/// host. A URL without a port of its own or of its scheme stands for port
/// 8080.
pub open spec fn address_of(url: UrlParts) -> Option<Seq<char>> {
    match url.host {
        None => None,
        Some(host) => Some(
            host + seq![':'] + decimal(
                match url.port {
                    Some(port) => port as nat,
                    None => DEFAULT_PROXY_PORT as nat,
                },
            ),
        ),
    }
}

/// The credential that a URL carries: `user:password`, or the user name alone
/// where it has no password.
pub open spec fn credential_of(url: UrlParts) -> Seq<char> {
    match url.password {
        Some(password) => url.username + seq![':'] + password,
        None => url.username,
    }
}

fn digit_text(value: u16) -> (text: &'static str)
    requires
        value < 10,
    ensures
        text@ == seq![digit(value as nat)],
{
    proof {
        reveal_strlit("0");
        reveal_strlit("1");
        reveal_strlit("2");
        reveal_strlit("3");
        reveal_strlit("4");
        reveal_strlit("5");
        reveal_strlit("6");
        reveal_strlit("7");
        reveal_strlit("8");
        reveal_strlit("9");
    }
    if value == 0 {
        "0"
    } else if value == 1 {
        "1"
    } else if value == 2 {
        "2"
    } else if value == 3 {
        "3"
    } else if value == 4 {
        "4"
    } else if value == 5 {
        "5"
    } else if value == 6 {
        "6"
    } else if value == 7 {
        "7"
    } else if value == 8 {
        "8"
    } else {
        "9"
    }
}

/// Writes a port number in decimal.
pub fn port_text(port: u16) -> (text: String)
    ensures
        text@ == decimal(port as nat),
    decreases port,
{
    if port < 10 {
        String::from_str(digit_text(port))
    } else {
        let mut text = port_text(port / 10);
        text.append(digit_text(port % 10));
        text
    }
}

/// The address of the proxy that `url` points to, or `None` if the URL has no
/// host.
pub fn proxy_address(url: &ProxyUrl) -> (address: Option<String>)
    ensures
        match address {
            Some(text) => address_of(url@) == Some(text@),
            None => address_of(url@) is None,
        },
{
    match &url.host {
        None => None,
        Some(host) => {
            let port = match url.port {
                Some(port) => port,
                None => DEFAULT_PROXY_PORT,
            };
            let digits = port_text(port);
            proof {
                reveal_strlit(":");
            }
            let mut address = host.clone();
            address.append(":");
            address.append(digits.as_str());
            Some(address)
        },
    }
}

/// The credential that `url` carries.
pub fn url_credential(url: &ProxyUrl) -> (credential: String)
    ensures
        credential@ == credential_of(url@),
{
    let mut credential = url.username.clone();
    match &url.password {
        Some(password) => {
            proof {
                reveal_strlit(":");
            }
            credential.append(":");
            credential.append(password.as_str());
        },
        None => {},
    }
    credential
}

/// How the destination is reached.
#[derive(Debug, PartialEq, Eq)]
pub enum Route {
    /// By a connection to the destination itself.
    Direct,
    /// Through the proxy at this address.
    Proxy { address: String },
}

/// The proxy URL that was to supply the proxy has no host.
#[derive(Clone, Copy, Debug, PartialEq, Eq)]
pub struct MissingHost;

/// The text of a string that may be absent.
pub open spec fn text_of(text: Option<String>) -> Option<Seq<char>> {
    match text {
        Some(text) => Some(text@),
        None => None,
    }
}

/// The parts of a proxy URL that may be absent.
pub open spec fn parts_of(url: Option<&ProxyUrl>) -> Option<UrlParts> {
    match url {
        Some(url) => Some(url@),
        None => None,
    }
}

/// In a model, how the destination is reached: directly, or through the proxy
/// at an address.
pub enum RouteModel {
    /// By a connection to the destination itself.
    Direct,
    /// Through the proxy at this address.
    Proxy { address: Seq<char> },
}

impl View for Route {
    type V = RouteModel;

    open spec fn view(&self) -> RouteModel {
        match self {
            Route::Direct => RouteModel::Direct,
            Route::Proxy { address } => RouteModel::Proxy { address: address@ },
        }
    }
}

/// The route that follows from a proxy address given outright and from a
/// proxy URL, either of which may be absent; `None` where the proxy URL is to
/// supply the address and has no host.
pub open spec fn route_of(explicit: Option<Seq<char>>, environment: Option<UrlParts>) -> Option<
    RouteModel,
> {
    match explicit {
        Some(address) => Some(RouteModel::Proxy { address }),
        None => match environment {
            None => Some(RouteModel::Direct),
            Some(url) => match address_of(url) {
                Some(address) => Some(RouteModel::Proxy { address }),
                None => None,
            },
        },
    }
}

/// The credential that follows from one read from a file and from a proxy
/// URL, either of which may be absent.
pub open spec fn credential_choice(
    from_file: Option<Seq<char>>,
    environment: Option<UrlParts>,
) -> Option<Seq<char>> {
    match from_file {
        Some(text) => Some(text),
        None => match environment {
            Some(url) => Some(credential_of(url)),
            None => None,
        },
    }
}

/// Chooses the route. An address given outright is taken as it is; else the
/// proxy URL supplies it; with neither, the route is direct. A proxy URL
/// without a host, when it is the one to supply the address, is an error.
pub fn choose_route(explicit: Option<String>, environment: Option<&ProxyUrl>) -> (route: Result<
    Route,
    MissingHost,
>)
    ensures
        match route {
            Ok(route) => route_of(text_of(explicit), parts_of(environment)) == Some(route@),
            Err(_) => route_of(text_of(explicit), parts_of(environment)) is None,
        },
{
    match explicit {
        Some(address) => Ok(Route::Proxy { address }),
        None => match environment {
            None => Ok(Route::Direct),
            Some(url) => match proxy_address(url) {
                Some(address) => Ok(Route::Proxy { address }),
                None => Err(MissingHost),
            },
        },
    }
}

/// Chooses the credential to present to the proxy. One read from a file is
/// taken as it is; else the proxy URL supplies its user information, which
/// may be an empty user name; with neither there is none.
pub fn choose_credential(from_file: Option<String>, environment: Option<&ProxyUrl>) -> (credential:
    Option<String>)
    ensures
        text_of(credential) == credential_choice(text_of(from_file), parts_of(environment)),
{
    match from_file {
        Some(text) => Some(text),
        None => match environment {
            Some(url) => Some(url_credential(url)),
            None => None,
        },
    }
}

} // verus!
