use vstd::prelude::*;

use crate::caller::{HandlerError, default_404, default_500, status_only_response};
use crate::fields::{field, pairs_view};
use crate::http_method::{HttpMethod, method_of};
use crate::http_status::HttpStatus;
use crate::parser::{HeadScan, HeadShape, Parser, ParseError, scan_head, scanned_head,
    request_spec, parser_view};
use crate::request::Request;
use crate::response::ResponseWriter;
use crate::router::Router;
use crate::text::{chars_of, concat_str, decimal, decimal_string};

verus! {

/// Why a server could not be configured.
#[derive(Debug, Clone, Copy, PartialEq, Eq, Structural)]
pub enum ConfigError {
    /// The port is not a decimal number, or is above 65535.
    InvalidPort,
    /// The port is 0 or in the reserved range 1 to 1023.
    ReservedPort,
    /// The address is not an IP literal.
    InvalidAddress,
}

pub open spec fn is_digit(c: char) -> bool {
    '0' <= c && c <= '9'
}

/// The number that a string of decimal digits denotes.
pub open spec fn digits_value(s: Seq<char>) -> nat
    decreases s.len(),
{
    if s.len() == 0 {
        0
    } else {
        digits_value(s.drop_last()) * 10 + ((s.last() as u32) - ('0' as u32)) as nat
    }
}

/// The digits of a port number: the text, without one leading `+`.
pub open spec fn port_digits(s: Seq<char>) -> Seq<char> {
    if s.len() > 0 && s[0] == '+' {
        s.drop_first()
    } else {
        s
    }
}

/// The port number that `s` denotes, if it denotes one that fits in 16 bits.
pub open spec fn port_number(s: Seq<char>) -> Option<nat> {
    let d = port_digits(s);
    if d.len() > 0 && (forall|i: int| 0 <= i < d.len() ==> is_digit(#[trigger] d[i]))
        && digits_value(d) <= 65535 {
        Some(digits_value(d))
    } else {
        None
    }
}

proof fn lemma_digits_prefix(d: Seq<char>, i: int)
    requires
        0 <= i <= d.len(),
        forall|j: int| 0 <= j < d.len() ==> is_digit(#[trigger] d[j]),
    ensures
        digits_value(d.subrange(0, i)) <= digits_value(d),
    decreases d.len() - i,
{
    if i < d.len() {
        lemma_digits_prefix(d.drop_last(), i);
        assert(d.drop_last().subrange(0, i) =~= d.subrange(0, i));
    } else {
        assert(d.subrange(0, i) =~= d);
    }
}

/// Reads a port number, and refuses 0 and the reserved ports below 1024.
pub fn parse_port(port: &str) -> (r: Result<u16, ConfigError>)
    ensures
        match port_number(port@) {
            None => r == Err::<u16, ConfigError>(ConfigError::InvalidPort),
            Some(n) => if n < 1024 {
                r == Err::<u16, ConfigError>(ConfigError::ReservedPort)
            } else {
                r == Ok::<u16, ConfigError>(n as u16)
            },
        },
{
    let s = chars_of(port);
    let start: usize = if s.len() > 0 && s[0] == '+' { 1 } else { 0 };
    let ghost d = s@.subrange(start as int, s@.len() as int);
    assert(d =~= port_digits(port@));
    if start == s.len() {
        return Err(ConfigError::InvalidPort);
    }
    let mut value: u32 = 0;
    let mut i: usize = start;
    while i < s.len()
        invariant
            start <= i <= s@.len(),
            d == s@.subrange(start as int, s@.len() as int),
            s@ == port@,
            d == port_digits(port@),
            forall|j: int| 0 <= j < i - start ==> is_digit(#[trigger] d[j]),
            value as nat == digits_value(d.subrange(0, i - start)),
            value <= 65535,
        decreases s@.len() - i,
    {
        let c = s[i];
        if !('0' <= c && c <= '9') {
            assert(!is_digit(d[i - start]));
            return Err(ConfigError::InvalidPort);
        }
        let ghost before = d.subrange(0, i - start);
        let ghost after = d.subrange(0, i - start + 1);
        assert(after.drop_last() =~= before);
        assert(after.last() == c);
        let next = value * 10 + ((c as u32) - ('0' as u32));
        assert(digits_value(after) == next as nat);
        if next > 65535 {
            proof {
                if forall|j: int| 0 <= j < d.len() ==> is_digit(#[trigger] d[j]) {
                    lemma_digits_prefix(d, i - start + 1);
                }
            }
            return Err(ConfigError::InvalidPort);
        }
        value = next;
        i = i + 1;
    }
    assert(d.subrange(0, d.len() as int) =~= d);
    if value < 1024 {
        Err(ConfigError::ReservedPort)
    } else {
        Ok(value as u16)
    }
}

/// A server's configuration and routing table; the caller runs the
/// listener and feeds each connection through a `Connection`.
#[derive(Debug, Clone)]
pub struct Server<H> {
    pub port: u16,
    /// `ip:port`, the address to listen on and to resolve targets against.
    pub address: String,
    pub router: Router<H>,
}

/// What to do next with a request.
#[derive(Debug, Clone)]
pub enum Step<H> {
    /// Invoke this handler with the request and a fresh writer.
    Call(H),
    /// Write this response.
    Send(String),
}

impl<H: Copy> Server<H> {
    /// A server for `port` on the IP address whose canonical text is `ip`;
    /// `ip` is `None` when the address given was not an IP literal. The port
    /// is checked first.
    pub fn new(port: &str, ip: Option<String>) -> (r: Result<Server<H>, ConfigError>)
        ensures
            match port_number(port@) {
                None => r matches Err(e) && e == ConfigError::InvalidPort,
                Some(n) => if n < 1024 {
                    r matches Err(e) && e == ConfigError::ReservedPort
                } else {
                    match ip {
                        None => r matches Err(e) && e == ConfigError::InvalidAddress,
                        Some(a) => r matches Ok(s) && s.port == n && s.address@ == a@ + seq![':']
                            + decimal(n) && s.router.routes().is_empty()
                            && s.router.not_found_func is None
                            && s.router.internal_server_error is None,
                    }
                },
            },
    {
        let port = match parse_port(port) {
            Ok(p) => p,
            Err(e) => return Err(e),
        };
        let ip = match ip {
            Some(a) => a,
            None => return Err(ConfigError::InvalidAddress),
        };
        let with_colon = concat_str(ip.as_str(), ":");
        let address = concat_str(with_colon.as_str(), decimal_string(port as usize).as_str());
        proof {
            reveal_strlit(":");
        }
        let router = Router::new();
        assert(router.routes() =~= Map::empty());
        Ok(Server { port, address, router })
    }

    /// Registers a handler; the pair must not have one yet.
    pub fn add_route(&mut self, path: &str, method: &str, callback_function: H)
        requires
            method_of(method@) is Some,
            !old(self).router.routes().contains_key((path@, method_of(method@)->0)),
        ensures
            final(self).router.routes() == old(self).router.routes().insert(
                (path@, method_of(method@)->0),
                callback_function,
            ),
            final(self).router.not_found_func == old(self).router.not_found_func,
            final(self).router.internal_server_error == old(self).router.internal_server_error,
            final(self).port == old(self).port,
            final(self).address == old(self).address,
    {
        self.router.add_route(path, method, callback_function);
    }

    /// Chooses what answers a parsed request: its route's handler; else the
    /// not-found fallback, built-in when none was set.
    pub fn dispatch(&self, request: &Parser) -> (r: Step<H>)
        ensures
            match method_of(request.method@) {
                Some(m) if self.router.routes().contains_key((request.path@, m)) => r == Step::<H>::Call(
                    self.router.routes()[(request.path@, m)],
                ),
                _ => match self.router.not_found_func {
                    Some(h) => r == Step::<H>::Call(h),
                    None => r matches Step::Send(s) && s@ == status_only_response(HttpStatus::NotFound),
                },
            },
    {
        match self.router.fetch_func(request.path.as_str(), request.method.as_str()) {
            Some(h) => Step::Call(h),
            None => match self.router.not_found_func {
                Some(h) => Step::Call(h),
                None => {
                    let w = ResponseWriter::new();
                    match default_404(Request::new(request.clone()), w) {
                        Ok(s) => Step::Send(s),
                        Err(_) => Step::Send(String::new()),
                    }
                },
            },
        }
    }

    /// What follows a handler's outcome: its response when it succeeded;
    /// after a failure, the internal-error fallback, built-in when none was
    /// set or when the failing handler was that fallback itself.
    pub fn on_result(&self, request: &Parser, result: Result<String, HandlerError>, in_fallback: bool) -> (r: Step<H>)
        ensures
            match result {
                Ok(s) => r == Step::<H>::Send(s),
                Err(_) => match self.router.internal_server_error {
                    Some(h) if !in_fallback => r == Step::<H>::Call(h),
                    _ => r matches Step::Send(s) && s@ == status_only_response(HttpStatus::InternalServerError),
                },
            },
    {
        match result {
            Ok(s) => Step::Send(s),
            Err(_) => match self.router.internal_server_error {
                Some(h) if !in_fallback => Step::Call(h),
                _ => {
                    let w = ResponseWriter::new();
                    match default_500(Request::new(request.clone()), w) {
                        Ok(s) => Step::Send(s),
                        Err(_) => Step::Send(String::new()),
                    }
                },
            },
        }
    }
}

/// What a buffer holds so far.
pub enum ParseOutcome {
    Complete(Parser),
    Incomplete,
    Malformed(ParseError),
}

/// The outcome of reading `buf`, with targets resolved against `address`.
pub open spec fn outcome_matches(o: ParseOutcome, address: Seq<char>, buf: Seq<u8>) -> bool {
    match scanned_head(buf) {
        HeadShape::Partial => o is Incomplete,
        HeadShape::Invalid => o is Malformed,
        HeadShape::Complete { .. } => match request_spec(scanned_head(buf), address, buf) {
            Ok(v) => o matches ParseOutcome::Complete(p) && parser_view(p) == v,
            Err(e) => o matches ParseOutcome::Malformed(e2) && e2 == e,
        },
    }
}

/// Reads a request from the bytes received so far.
pub fn check_parsed_result(buffer: &[u8], base_address: &str) -> (r: ParseOutcome)
    ensures
        outcome_matches(r, base_address@, buffer@),
{
    match scan_head(buffer) {
        HeadScan::Complete(head) => match Parser::new(&head, base_address, buffer) {
            Ok(p) => ParseOutcome::Complete(p),
            Err(e) => ParseOutcome::Malformed(e),
        },
        HeadScan::Partial => ParseOutcome::Incomplete,
        HeadScan::Invalid => ParseOutcome::Malformed(ParseError::MissingMethod),
    }
}

/// The next step of a connection after a read.
pub enum ReadStep {
    /// Read more bytes.
    NeedMore,
    /// Close without a response.
    Close,
    /// Answer this request.
    Ready(Parser),
}

/// The state of one connection between reads: the bytes of the request
/// that is arriving.
pub struct Connection {
    pub buffer: Vec<u8>,
    pub base_address: String,
}

/// The request header that ends a connection after its response.
pub open spec fn connection_key() -> Seq<char> {
    "Connection"@
}

/// Whether the connection stays open after answering `p`: unless it asked,
/// with `Connection: close`, to be closed.
pub open spec fn keeps_alive(p: Parser) -> bool {
    field(pairs_view(p.header@), connection_key()) != Some("close"@)
}

impl Connection {
    /// A connection with nothing received yet.
    pub fn new(base_address: String) -> (r: Connection)
        ensures
            r.buffer@ == Seq::<u8>::empty(),
            r.base_address == base_address,
    {
        Connection { buffer: Vec::new(), base_address }
    }

    /// Takes the bytes of one read. An empty read closes the connection.
    /// Otherwise the bytes are added to what came before and the whole is
    /// read again: a complete request is handed out and the buffer emptied
    /// for the next one; a malformed one closes the connection.
    pub fn on_read(&mut self, chunk: &[u8]) -> (r: ReadStep)
        ensures
            final(self).base_address == old(self).base_address,
            chunk@.len() == 0 ==> r is Close && final(self).buffer@ == old(self).buffer@,
            chunk@.len() > 0 ==> {
                let all = old(self).buffer@ + chunk@;
                match scanned_head(all) {
                    HeadShape::Partial => r is NeedMore && final(self).buffer@ == all,
                    HeadShape::Invalid => r is Close,
                    HeadShape::Complete { .. } => match request_spec(
                        scanned_head(all),
                        old(self).base_address@,
                        all,
                    ) {
                        Ok(v) => r matches ReadStep::Ready(p) && parser_view(p) == v
                            && final(self).buffer@ == Seq::<u8>::empty(),
                        Err(_) => r is Close,
                    },
                }
            },
    {
        if chunk.len() == 0 {
            return ReadStep::Close;
        }
        let mut i: usize = 0;
        let ghost start = self.buffer@;
        while i < chunk.len()
            invariant
                i <= chunk@.len(),
                self.buffer@ == start + chunk@.subrange(0, i as int),
                self.base_address == old(self).base_address,
            decreases chunk@.len() - i,
        {
            self.buffer.push(chunk[i]);
            i = i + 1;
            assert(self.buffer@ =~= start + chunk@.subrange(0, i as int));
        }
        assert(chunk@.subrange(0, chunk@.len() as int) =~= chunk@);
        match check_parsed_result(self.buffer.as_slice(), self.base_address.as_str()) {
            ParseOutcome::Complete(p) => {
                self.buffer = Vec::new();
                ReadStep::Ready(p)
            },
            ParseOutcome::Incomplete => ReadStep::NeedMore,
            ParseOutcome::Malformed(_) => ReadStep::Close,
        }
    }

    /// Whether to read another request after answering `request`.
    pub fn keep_alive(request: &Parser) -> (r: bool)
        ensures
            r == keeps_alive(*request),
    {
        let close = "close".to_owned();
        match request.get_header("Connection") {
            Some(v) => !(v == close),
            None => true,
        }
    }
}

/// Registering a handler for a path and method makes a request for exactly
/// that pair reach it, and leaves the handler of every other pair as it was.
pub proof fn lemma_registration_dispatch<H>(
    routes: Map<(Seq<char>, HttpMethod), H>,
    path: Seq<char>,
    m: HttpMethod,
    h: H,
    q: (Seq<char>, HttpMethod),
)
    ensures
        routes.insert((path, m), h).contains_key((path, m)),
        routes.insert((path, m), h)[(path, m)] == h,
        q != (path, m) ==> routes.insert((path, m), h).contains_key(q) == routes.contains_key(q),
        q != (path, m) && routes.contains_key(q) ==> routes.insert((path, m), h)[q] == routes[q],
{
}

} // verus!
