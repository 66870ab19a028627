//! The summary of a scan: a few lines between two rules.

use vstd::prelude::*;
use vstd::string::{StringExecFns, StringSliceAdditionalSpecFns};
use vstd::utf8::encode_utf8;
use crate::utils::sequence::joined;
use crate::utils::text::{decimal, push_decimal, push_repeated, repeated};

verus! {

/// The line that counts the entries: all of them, then directories and files,
/// and the entries of unknown kind where there are any.
pub open spec fn items_line(
    results_len: nat,
    dir_count: nat,
    file_count: nat,
    unknown_count: nat,
) -> Seq<char> {
    let known = "Items: "@ + decimal(results_len) + " ("@ + decimal(dir_count) + " dirs, "@
        + decimal(file_count) + " files"@;
    let unknown = if unknown_count > 0 {
        ", "@ + decimal(unknown_count) + " unknown"@
    } else {
        Seq::empty()
    };
    known + unknown + ")\n"@
}

/// The lines of the summary, each with its line feed.
pub open spec fn summary_lines(
    dir: Seq<char>,
    resolved_dir: Seq<char>,
    total: Seq<char>,
    dir_count: nat,
    file_count: nat,
    unknown_count: nat,
    results_len: nat,
    errors_len: nat,
    took: Seq<char>,
) -> Seq<Seq<char>> {
    seq![
        "File/Directory Sizes in '"@ + dir + "'\n"@,
        "Resolved Path: "@ + resolved_dir + "\n"@,
        "Total Size: "@ + total + "\n"@,
        items_line(results_len, dir_count, file_count, unknown_count),
        "Errors: "@ + decimal(errors_len) + "\n"@,
        "Took: "@ + took + "\n"@,
    ]
}

/// The length in bytes of the longest of `lines`.
pub open spec fn widest(lines: Seq<Seq<char>>) -> nat
    decreases lines.len(),
{
    if lines.len() == 0 {
        0
    } else {
        let before = widest(lines.drop_last());
        let last = encode_utf8(lines.last()).len();
        if last > before {
            last
        } else {
            before
        }
    }
}

/// `lines` between two rules of `=`, each as long as the longest line is in
/// bytes, its line feed counted; an empty line ends the text.
pub open spec fn framed(lines: Seq<Seq<char>>) -> Seq<char> {
    let rule = repeated("="@, widest(lines));
    rule + "\n"@ + joined(lines) + rule + "\n\n"@
}

fn push_line(
    summary: &mut String,
    max_len: &mut usize,
    line: &String,
    Ghost(lines): Ghost<Seq<Seq<char>>>,
)
    requires
        old(summary)@ == joined(lines),
        *old(max_len) == widest(lines),
    ensures
        final(summary)@ == joined(lines.push(line@)),
        *final(max_len) == widest(lines.push(line@)),
{
    let len = line.as_str().as_bytes().len();
    if len > *max_len {
        *max_len = len;
    }
    summary.append(line.as_str());
    proof {
        assert(lines.push(line@).drop_last() =~= lines);
    }
}

/// Makes the summary of a scan of `dir`: what was scanned, the total in the
/// unit chosen, the numbers of entries and of errors, and the time taken.
/// `total` and `took` are the total and the time as they are to be shown.
pub fn make_summary(
    dir: &str,
    resolved_dir: &str,
    total: &str,
    dir_count: usize,
    file_count: usize,
    unknown_count: usize,
    results_len: usize,
    errors_len: usize,
    took: &str,
) -> (summary: String)
    ensures
        summary@ == framed(
            summary_lines(
                dir@,
                resolved_dir@,
                total@,
                dir_count as nat,
                file_count as nat,
                unknown_count as nat,
                results_len as nat,
                errors_len as nat,
                took@,
            ),
        ),
{
    let ghost wanted = summary_lines(
        dir@,
        resolved_dir@,
        total@,
        dir_count as nat,
        file_count as nat,
        unknown_count as nat,
        results_len as nat,
        errors_len as nat,
        took@,
    );
    let mut body = String::new();
    let mut max_len: usize = 0;
    let ghost mut lines: Seq<Seq<char>> = Seq::empty();

    let mut line = String::from_str("File/Directory Sizes in '");
    line.append(dir);
    line.append("'\n");
    push_line(&mut body, &mut max_len, &line, Ghost(lines));
    proof {
        lines = lines.push(line@);
    }

    let mut line = String::from_str("Resolved Path: ");
    line.append(resolved_dir);
    line.append("\n");
    push_line(&mut body, &mut max_len, &line, Ghost(lines));
    proof {
        lines = lines.push(line@);
    }

    let mut line = String::from_str("Total Size: ");
    line.append(total);
    line.append("\n");
    push_line(&mut body, &mut max_len, &line, Ghost(lines));
    proof {
        lines = lines.push(line@);
    }

    let mut line = String::from_str("Items: ");
    push_decimal(&mut line, results_len as u64);
    line.append(" (");
    push_decimal(&mut line, dir_count as u64);
    line.append(" dirs, ");
    push_decimal(&mut line, file_count as u64);
    line.append(" files");
    if unknown_count > 0 {
        line.append(", ");
        push_decimal(&mut line, unknown_count as u64);
        line.append(" unknown");
    }
    line.append(")\n");
    proof {
        assert(line@ =~= items_line(
            results_len as nat,
            dir_count as nat,
            file_count as nat,
            unknown_count as nat,
        ));
    }
    push_line(&mut body, &mut max_len, &line, Ghost(lines));
    proof {
        lines = lines.push(line@);
    }

    let mut line = String::from_str("Errors: ");
    push_decimal(&mut line, errors_len as u64);
    line.append("\n");
    push_line(&mut body, &mut max_len, &line, Ghost(lines));
    proof {
        lines = lines.push(line@);
    }

    let mut line = String::from_str("Took: ");
    line.append(took);
    line.append("\n");
    push_line(&mut body, &mut max_len, &line, Ghost(lines));
    proof {
        lines = lines.push(line@);
        assert(lines =~= wanted);
    }

    let mut summary = String::new();
    push_repeated(&mut summary, "=", max_len);
    summary.append("\n");
    summary.append(body.as_str());
    push_repeated(&mut summary, "=", max_len);
    summary.append("\n\n");
    proof {
        assert(summary@ =~= framed(wanted));
    }
    summary
}

} // verus!
