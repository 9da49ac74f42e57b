//! The demonstration server's protocol, without its sockets and files: which
//! request line is answered with the log-in page, and how an answer is framed.

use vstd::prelude::*;
use vstd::string::StringSliceAdditionalSpecFns;

verus! {

/// What a request is answered with.
#[derive(Debug, Clone, Copy, PartialEq, Eq, Structural)]
pub enum Route {
    /// The log-in page.
    LogIn,
    /// The page for everything else.
    NotFound,
}

/// A request line asks for the log-in page if it reads `GET`, a space, a
/// target, a space and `HTTP/1.1`, where the target ends in its only slash
/// and holds no space.
pub open spec fn asks_for_log_in(line: Seq<char>) -> bool {
    let head = "GET "@;
    let tail = "/ HTTP/1.1"@;
    &&& line.len() >= head.len() + tail.len()
    &&& line.subrange(0, head.len() as int) == head
    &&& line.subrange(line.len() - tail.len(), line.len() as int) == tail
    &&& forall|i: int|
        head.len() <= i < line.len() - tail.len() ==> line[i] != ' ' && line[i] != '/'
}

/// The characters of `text`.
fn chars_of(text: &str) -> (chars: Vec<char>)
    ensures
        chars@ == text@,
{
    let mut chars: Vec<char> = Vec::new();
    for c in rest: text.chars()
        invariant
            rest.seq() == text@,
            chars@ == text@.take(rest.index() as int),
    {
        chars.push(c);
    }
    chars
}

/// Whether `word` stands in `line` from position `at` on.
fn stands_at(line: &Vec<char>, at: usize, word: &Vec<char>) -> (found: bool)
    requires
        at + word@.len() <= line@.len(),
    ensures
        found == (line@.subrange(at as int, at + word@.len()) == word@),
{
    let length = line.len();
    let mut next: usize = 0;
    while next < word.len()
        invariant
            next <= word@.len(),
            at + word@.len() <= length == line@.len(),
            forall|i: int| 0 <= i < next ==> line@[at + i] == word@[i],
        decreases word@.len() - next,
    {
        if line[at + next] != word[next] {
            assert(line@.subrange(at as int, at + word@.len())[next as int] != word@[next as int]);
            return false;
        }
        next += 1;
    }
    assert(line@.subrange(at as int, at + word@.len()) =~= word@);
    true
}

/// Decides what a request line is answered with.
pub fn route(request_line: &str) -> (route: Route)
    ensures
        route == if asks_for_log_in(request_line@) {
            Route::LogIn
        } else {
            Route::NotFound
        },
{
    let line = chars_of(request_line);
    let head = chars_of("GET ");
    let tail = chars_of("/ HTTP/1.1");
    proof {
        reveal_strlit("GET ");
        reveal_strlit("/ HTTP/1.1");
    }
    if line.len() < head.len() + tail.len() {
        return Route::NotFound;
    }
    let target_end = line.len() - tail.len();
    if !stands_at(&line, 0, &head) || !stands_at(&line, target_end, &tail) {
        return Route::NotFound;
    }
    let mut at = head.len();
    while at < target_end
        invariant
            line@ == request_line@,
            head@ == "GET "@,
            tail@ == "/ HTTP/1.1"@,
            head@.len() <= at <= target_end == line@.len() - tail@.len(),
            forall|i: int| head@.len() <= i < at ==> line@[i] != ' ' && line@[i] != '/',
        decreases target_end - at,
    {
        if line[at] == ' ' || line[at] == '/' {
            return Route::NotFound;
        }
        at += 1;
    }
    Route::LogIn
}

/// The decimal digit that stands for `value`.
pub open spec fn digit(value: nat) -> char
    recommends
        value < 10,
{
    seq!['0', '1', '2', '3', '4', '5', '6', '7', '8', '9'][value as int]
}

/// `value` written in decimal, without leading zeros.
pub open spec fn decimal(value: nat) -> Seq<char>
    decreases value,
{
    if value < 10 {
        seq![digit(value)]
    } else {
        decimal(value / 10).push(digit(value % 10))
    }
}

/// The text of one decimal digit.
fn digit_text(value: usize) -> (text: &'static str)
    requires
        value < 10,
    ensures
        text@ == seq![digit(value as nat)],
{
    proof {
        reveal_strlit("0");
        reveal_strlit("1");
        reveal_strlit("2");
        reveal_strlit("3");
        reveal_strlit("4");
        reveal_strlit("5");
        reveal_strlit("6");
        reveal_strlit("7");
        reveal_strlit("8");
        reveal_strlit("9");
    }
    let text = match value {
        0 => "0",
        1 => "1",
        2 => "2",
        3 => "3",
        4 => "4",
        5 => "5",
        6 => "6",
        7 => "7",
        8 => "8",
        _ => "9",
    };
    assert(text@ =~= seq![digit(value as nat)]);
    text
}

/// Writes `value` in decimal.
pub fn decimal_string(value: usize) -> (text: String)
    ensures
        text@ == decimal(value as nat),
    decreases value,
{
    if value < 10 {
        String::from_str(digit_text(value))
    } else {
        let mut text = decimal_string(value / 10);
        text.append(digit_text(value % 10));
        text
    }
}

/// The status line that opens the answer to a request.
pub open spec fn status_text(route: Route) -> Seq<char> {
    match route {
        Route::LogIn => "HTTP/1.1 200 OK"@,
        Route::NotFound => "HTTP/1.1 404 NOT FOUND"@,
    }
}

/// The status line that opens the answer to a request.
pub fn status_line(route: Route) -> (line: &'static str)
    ensures
        line@ == status_text(route),
{
    match route {
        Route::LogIn => "HTTP/1.1 200 OK",
        Route::NotFound => "HTTP/1.1 404 NOT FOUND",
    }
}

/// An answer: the status line, the length of the page in bytes as its only
/// header, an empty line and the page.
pub open spec fn framed(route: Route, contents: Seq<char>, length: nat) -> Seq<char> {
    status_text(route) + "\r\n"@ + "Content-Length: "@ + decimal(length) + "\r\n\r\n"@ + contents
}

/// Frames the page `contents` as the answer to a request.
pub fn render(route: Route, contents: &str) -> (response: String)
    ensures
        response@ == framed(route, contents@, contents.spec_bytes().len()),
{
    let length = contents.as_bytes().len();
    let mut response = String::from_str(status_line(route));
    response.append("\r\n");
    response.append("Content-Length: ");
    response.append(decimal_string(length).as_str());
    response.append("\r\n\r\n");
    response.append(contents);
    response
}

} // verus!
