//! The caption stamped on every page of a submitted document.
use vstd::prelude::*;
use crate::model::Team;

verus! {

/// How many characters of a client's name a caption shows.
pub const NAME_LIMIT: usize = 30;

pub open spec fn decimal_digits() -> Seq<char> {
    seq!['0', '1', '2', '3', '4', '5', '6', '7', '8', '9']
}

/// The decimal notation of `n`, without leading zeros.
pub open spec fn decimal(n: nat) -> Seq<char>
    decreases n,
{
    if n < 10 {
        seq![decimal_digits()[n as int]]
    } else {
        decimal(n / 10).push(decimal_digits()[(n % 10) as int])
    }
}

/// The client's name as the caption shows it: quoted, and cut to
/// `NAME_LIMIT` characters with an ellipsis when it is longer.
pub open spec fn shown_name(name: Seq<char>) -> Seq<char> {
    if name.len() <= NAME_LIMIT {
        seq!['"'] + name + seq!['"']
    } else {
        seq!['"'] + name.subrange(0, NAME_LIMIT as int) + seq!['.', '.', '.', '"']
    }
}

/// One character as it stands in an annotation string: parentheses delimit
/// strings there, so they take a backslash.
pub open spec fn escaped_char(c: char) -> Seq<char> {
    if c == '(' || c == ')' {
        seq!['\\', c]
    } else {
        seq![c]
    }
}

pub open spec fn escaped(s: Seq<char>) -> Seq<char>
    decreases s.len(),
{
    if s.len() == 0 {
        Seq::empty()
    } else {
        escaped(s.drop_last()) + escaped_char(s.last())
    }
}

/// The caption text before escaping.
pub open spec fn raw_caption(location: Seq<char>, name: Seq<char>, page: nat, num_pages: nat) -> Seq<char> {
    location + seq![' ', '-', ' ', 'P', 'a', 'g', 'e', ' '] + decimal(page + 1) + seq![' ', 'o', 'f', ' ']
        + decimal(num_pages) + seq![' ', '-', ' ', 'T', 'e', 'a', 'm', ' '] + shown_name(name)
}

/// The caption of page `page` (counted from zero) out of `num_pages`.
pub open spec fn caption(location: Seq<char>, name: Seq<char>, page: nat, num_pages: nat) -> Seq<char> {
    escaped(raw_caption(location, name, page, num_pages))
}

/// Appends the decimal notation of `n` to `out`.
fn push_decimal(out: &mut String, n: usize)
    ensures
        final(out)@ == old(out)@ + decimal(n as nat),
    decreases n,
{
    if n >= 10 {
        push_decimal(out, n / 10);
    }
    let digits = "0123456789";
    proof {
        reveal_strlit("0123456789");
        assert(digits@ =~= decimal_digits());
    }
    let d: usize = n % 10;
    out.append(digits.substring_char(d, d + 1));
    proof {
        assert(digits@.subrange(d as int, d + 1) =~= seq![decimal_digits()[d as int]]);
        if n >= 10 {
            assert(decimal(n as nat) == decimal((n / 10) as nat).push(decimal_digits()[d as int]));
        }
        assert(final(out)@ =~= old(out)@ + decimal(n as nat));
    }
}

/// Appends `s` to `out` with every parenthesis escaped.
fn push_escaped(out: &mut String, s: &str)
    ensures
        final(out)@ == old(out)@ + escaped(s@),
{
    let n: usize = s.unicode_len();
    let mut i: usize = 0;
    while i < n
        invariant
            n == s@.len(),
            i <= n,
            out@ == old(out)@ + escaped(s@.subrange(0, i as int)),
        decreases n - i,
    {
        let c = s.get_char(i);
        if c == '(' {
            out.append("\\(");
            proof { reveal_strlit("\\("); }
        } else if c == ')' {
            out.append("\\)");
            proof { reveal_strlit("\\)"); }
        } else {
            out.append(s.substring_char(i, i + 1));
        }
        proof {
            let next = s@.subrange(0, i + 1);
            assert(next.drop_last() =~= s@.subrange(0, i as int));
            assert(next.last() == c);
            assert(s@.subrange(i as int, i + 1) =~= seq![c]);
        }
        i = i + 1;
        assert(out@ =~= old(out)@ + escaped(s@.subrange(0, i as int)));
    }
    assert(s@.subrange(0, n as int) =~= s@);
}

/// The caption that goes on page `page` (counted from zero) of a document
/// of `num_pages` pages submitted by `team`: its location, the one-based page
/// number, the page count and its name, with parentheses escaped.
pub fn page_text(team: &Team, page: usize, num_pages: usize) -> (r: String)
    requires
        page < num_pages,
    ensures
        r@ == caption(team.location@, team.team_name@, page as nat, num_pages as nat),
{
    let mut raw = String::from_str(team.location.as_str());
    raw.append(" - Page ");
    push_decimal(&mut raw, page + 1);
    raw.append(" of ");
    push_decimal(&mut raw, num_pages);
    raw.append(" - Team \"");
    let name = team.team_name.as_str();
    let len: usize = name.unicode_len();
    if len <= NAME_LIMIT {
        raw.append(name);
        raw.append("\"");
    } else {
        raw.append(name.substring_char(0, NAME_LIMIT));
        raw.append("...\"");
    }
    proof {
        reveal_strlit(" - Page ");
        reveal_strlit(" of ");
        reveal_strlit(" - Team \"");
        reveal_strlit("\"");
        reveal_strlit("...\"");
        assert(raw@ =~= raw_caption(team.location@, team.team_name@, page as nat, num_pages as nat));
    }
    let mut text = String::new();
    push_escaped(&mut text, raw.as_str());
    assert(text@ =~= caption(team.location@, team.team_name@, page as nat, num_pages as nat));
    text
}

/// The PostScript that selects the caption font.
pub const CAPTION_FONT_PROGRAM: &'static str = "/Courier findfont 12 scalefont setfont";

/// The PostScript that draws an (already escaped) caption at the caption's
/// place and ends the page: `50 20 moveto (<caption>) show showpage`.
pub fn caption_program(caption: &str) -> (r: String)
    ensures
        r@ == seq!['5', '0', ' ', '2', '0', ' ', 'm', 'o', 'v', 'e', 't', 'o', ' ', '('] + caption@
            + seq![')', ' ', 's', 'h', 'o', 'w', ' ', 's', 'h', 'o', 'w', 'p', 'a', 'g', 'e'],
{
    let head = "50 20 moveto (";
    let tail = ") show showpage";
    proof {
        reveal_strlit("50 20 moveto (");
        reveal_strlit(") show showpage");
    }
    let r = String::from_str(head).concat(caption).concat(tail);
    assert(r@ =~= seq!['5', '0', ' ', '2', '0', ' ', 'm', 'o', 'v', 'e', 't', 'o', ' ', '('] + caption@
        + seq![')', ' ', 's', 'h', 'o', 'w', ' ', 's', 'h', 'o', 'w', 'p', 'a', 'g', 'e']);
    r
}

} // verus!
