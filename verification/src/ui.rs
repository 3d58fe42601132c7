//! Texts that the command line shows: sizes, headers with their secrets
//! hidden, and a request as a file.

use crate::decimal::{decimal_text, one_decimal, push_decimal, push_one_decimal, tenths_of};
use crate::text::{chars_of, contains, contains_text, find_char, index_of, lemma_index_of,
    lowercase_of, push_str_chars, text_of};
use crate::utils::{trim_range, trimmed};
use vstd::prelude::*;

verus! {

/// A size in words: bytes below 1024, then kilobytes of 1024 bytes with
/// one decimal below 1024 of them, then megabytes.
pub open spec fn size_text(bytes: nat) -> Seq<char> {
    if bytes < 1024 {
        decimal_text(bytes) + " B"@
    } else if bytes < 1024 * 1024 {
        one_decimal(tenths_of(bytes, 1024)) + " KB"@
    } else {
        one_decimal(tenths_of(bytes, 1024 * 1024)) + " MB"@
    }
}

/// The size `bytes` in words.
pub fn format_size(bytes: usize) -> (r: String)
    ensures
        r@ == size_text(bytes as nat),
{
    let mut out: Vec<char> = Vec::new();
    if bytes < 1024 {
        push_decimal(&mut out, bytes as u128);
        push_str_chars(&mut out, " B");
    } else if bytes < 1024 * 1024 {
        push_one_decimal(&mut out, bytes as u128, 1024);
        push_str_chars(&mut out, " KB");
    } else {
        push_one_decimal(&mut out, bytes as u128, 1024 * 1024);
        push_str_chars(&mut out, " MB");
    }
    proof {
        assert(out@ =~= size_text(bytes as nat));
    }
    text_of(&out)
}

/// A header line as it is shown: the value of a line that names an
/// authorization, in whatever case, gives way to `****`.
pub open spec fn shown_header(line: Seq<char>) -> Seq<char> {
    let colon = index_of(line, ':');
    if contains_text(lowercase_of(line), "authorization"@) && 0 <= colon < line.len() {
        trimmed(line.take(colon)) + ": ****"@
    } else {
        line
    }
}

/// The header line `header` as it is shown.
pub fn display_header(header: &str) -> (r: String)
    ensures
        r@ == shown_header(header@),
{
    let lower = header.to_lowercase();
    if !contains(lower.as_str(), "authorization") {
        return header.to_owned();
    }
    let line = chars_of(header);
    let colon = find_char(&line, 0, line.len(), ':');
    proof {
        assert(line@.subrange(0, line@.len() as int) =~= line@);
        lemma_index_of(line@, ':');
    }
    if colon == line.len() {
        return header.to_owned();
    }
    proof {
        assert(line@.take(colon as int) =~= line@.subrange(0, colon as int));
    }
    let name = trim_range(&line, 0, colon);
    let mut out: Vec<char> = Vec::new();
    push_str_chars(&mut out, name.as_str());
    push_str_chars(&mut out, ": ****");
    proof {
        assert(out@ =~= shown_header(header@));
    }
    text_of(&out)
}

/// The line of a request file for the header line `line`: its name and
/// its value, trimmed; nothing for a line without `:`.
pub open spec fn header_yaml(line: Seq<char>) -> Seq<char> {
    let colon = index_of(line, ':');
    if 0 <= colon < line.len() {
        "    "@ + trimmed(line.take(colon)) + ": \""@ + trimmed(line.skip(colon + 1)) + "\"\n"@
    } else {
        Seq::empty()
    }
}

/// The lines of a request file for the header lines `lines`.
pub open spec fn headers_yaml(lines: Seq<Seq<char>>) -> Seq<char>
    decreases lines.len(),
{
    if lines.len() == 0 {
        Seq::empty()
    } else {
        headers_yaml(lines.drop_last()) + header_yaml(lines.last())
    }
}

/// A request as a file: the method and the URL, the headers where there
/// are any, and the body where there is one.
pub open spec fn request_yaml(
    method: Seq<char>,
    url: Seq<char>,
    headers: Seq<Seq<char>>,
    data: Option<Seq<char>>,
) -> Seq<char> {
    "request:\n  method: "@ + method + "\n  url: \""@ + url + "\"\n"@ + (if headers.len() > 0 {
        "  headers:\n"@ + headers_yaml(headers)
    } else {
        Seq::empty()
    }) + (match data {
        Some(body) => "  body: \""@ + body + "\"\n"@,
        None => Seq::empty(),
    })
}

/// The request as a file.
pub fn request_file(method: &str, url: &str, headers: &[String], data: &Option<String>) -> (r:
    String)
    ensures
        r@ == request_yaml(
            method@,
            url@,
            crate::utils::texts_of(headers@),
            match data {
                Some(body) => Some(body@),
                None => None,
            },
        ),
{
    let ghost lines = crate::utils::texts_of(headers@);
    let mut out: Vec<char> = Vec::new();
    push_str_chars(&mut out, "request:\n  method: ");
    push_str_chars(&mut out, method);
    push_str_chars(&mut out, "\n  url: \"");
    push_str_chars(&mut out, url);
    push_str_chars(&mut out, "\"\n");
    if headers.len() > 0 {
        push_str_chars(&mut out, "  headers:\n");
        let ghost opened = out@;
        let mut i: usize = 0;
        proof {
            assert(lines.take(0) =~= Seq::<Seq<char>>::empty());
            assert(opened + Seq::<char>::empty() =~= opened);
        }
        while i < headers.len()
            invariant
                i <= headers.len(),
                lines == crate::utils::texts_of(headers@),
                out@ == opened + headers_yaml(lines.take(i as int)),
            decreases headers.len() - i,
        {
            let line = chars_of(headers[i].as_str());
            let colon = find_char(&line, 0, line.len(), ':');
            let ghost before = out@;
            proof {
                assert(line@.subrange(0, line@.len() as int) =~= line@);
                assert(lines.take(i + 1).drop_last() =~= lines.take(i as int));
                assert(lines.take(i + 1).last() == line@);
                lemma_index_of(line@, ':');
            }
            if colon < line.len() {
                proof {
                    assert(line@.take(colon as int) =~= line@.subrange(0, colon as int));
                    assert(line@.skip(colon + 1) =~= line@.subrange(
                        colon + 1,
                        line@.len() as int,
                    ));
                }
                let name = trim_range(&line, 0, colon);
                let value = trim_range(&line, colon + 1, line.len());
                push_str_chars(&mut out, "    ");
                push_str_chars(&mut out, name.as_str());
                push_str_chars(&mut out, ": \"");
                push_str_chars(&mut out, value.as_str());
                push_str_chars(&mut out, "\"\n");
                proof {
                    assert(out@ =~= before + header_yaml(line@));
                }
            } else {
                proof {
                    assert(out@ =~= before + header_yaml(line@));
                }
            }
            proof {
                assert(out@ =~= opened + headers_yaml(lines.take(i + 1)));
            }
            i += 1;
        }
        proof {
            assert(lines.take(lines.len() as int) =~= lines);
        }
    }
    match data {
        Some(body) => {
            push_str_chars(&mut out, "  body: \"");
            push_str_chars(&mut out, body.as_str());
            push_str_chars(&mut out, "\"\n");
        },
        None => {},
    }
    proof {
        assert(out@ =~= request_yaml(
            method@,
            url@,
            lines,
            match data {
                Some(body) => Some(body@),
                None => None,
            },
        ));
    }
    text_of(&out)
}

} // verus!
