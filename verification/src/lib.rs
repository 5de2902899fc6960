pub mod cache;
pub mod config;
pub mod error;
pub mod page;
pub mod platform;
pub mod render;
pub mod text;

use vstd::prelude::*;

verus! {

/// Joins the words of a multi-word command into the single page name,
/// with `-` between the words, as the page files on disk are named.
pub open spec fn joined_spec(parts: Seq<Seq<char>>) -> Seq<char>
    decreases parts.len(),
{
    if parts.len() == 0 {
        Seq::empty()
    } else if parts.len() == 1 {
        parts[0]
    } else {
        joined_spec(parts.drop_last()) + "-"@ + parts.last()
    }
}

pub fn joined_command(parts: &Vec<String>) -> (r: String)
    ensures
        r@ == joined_spec(parts.deep_view()),
{
    let mut out = String::new();
    let mut i: usize = 0;
    while i < parts.len()
        invariant
            i <= parts.len(),
            out@ == joined_spec(parts.deep_view().take(i as int)),
        decreases parts.len() - i,
    {
        if i > 0 {
            out.append("-");
        }
        out.append(parts[i].as_str());
        proof {
            let pre = parts.deep_view().take(i + 1);
            assert(pre.drop_last() =~= parts.deep_view().take(i as int));
            assert(pre.last() == parts.deep_view()[i as int]);
        }
        i += 1;
    }
    proof {
        assert(parts.deep_view().take(parts.len() as int) =~= parts.deep_view());
    }
    out
}

/// The message shown when a command has no page anywhere: the command is
/// named, and three remedies are suggested — refreshing the cache, writing
/// a private page, and asking for the page upstream.
pub open spec fn not_found_spec(command: Seq<char>, bin: Seq<char>) -> Seq<char> {
    "404: "@ + command + "\n\nTry:\n  * "@ + bin + " -u\n  * "@ + bin + " -e "@ + command
        + "\n  * https://github.com/tldr-pages/tldr/issues/new?title=page%20request:%20"@ + command
}

pub fn not_found_message(command: &str, bin: &str) -> (r: String)
    ensures
        r@ == not_found_spec(command@, bin@),
{
    let mut out = "404: ".to_owned();
    out.append(command);
    out.append("\n\nTry:\n  * ");
    out.append(bin);
    out.append(" -u\n  * ");
    out.append(bin);
    out.append(" -e ");
    out.append(command);
    out.append("\n  * https://github.com/tldr-pages/tldr/issues/new?title=page%20request:%20");
    out.append(command);
    proof {
        assert(out@ =~= not_found_spec(command@, bin@));
    }
    out
}

} // verus!
