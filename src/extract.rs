//! The function-doc extractor: a single forward scan over the tokens of a
//! function definition that picks out its leading comments, name, parameters
//! and return type.
use vstd::prelude::*;
use crate::syntax::names_view;
use crate::text::{join_lines, join_word, text_eq, trim_whitespace, trimmed};

verus! {

/// A token as the renderer keeps it: its kind, the label of its field in the
/// parent, and its text.
pub struct TokenEntry {
    pub kind: String,
    pub description: String,
    pub text: String,
}

/// The text of a `TokenEntry`.
pub struct TokenView {
    pub kind: Seq<char>,
    pub description: Seq<char>,
    pub text: Seq<char>,
}

impl View for TokenEntry {
    type V = TokenView;

    open spec fn view(&self) -> TokenView {
        TokenView { kind: self.kind@, description: self.description@, text: self.text@ }
    }
}

/// What the extractor finds in a function definition.
pub struct FunctionDoc {
    pub name: String,
    /// The leading comment lines, without their markers, joined with newlines.
    pub leading_comments: String,
    /// One entry for each parameter: its tokens' texts separated by spaces.
    pub parameters: Vec<String>,
    /// The tokens after `->`, separated by spaces; empty without an arrow.
    pub return_type: String,
    /// Whether the keyword, the name, both parentheses and the opening brace
    /// were all found; when not, the other fields are a best guess.
    pub complete: bool,
}

/// The text of a `FunctionDoc`.
pub struct FunctionDocView {
    pub name: Seq<char>,
    pub leading_comments: Seq<char>,
    pub parameters: Seq<Seq<char>>,
    pub return_type: Seq<char>,
    pub complete: bool,
}

impl View for FunctionDoc {
    type V = FunctionDocView;

    open spec fn view(&self) -> FunctionDocView {
        FunctionDocView {
            name: self.name@,
            leading_comments: self.leading_comments@,
            parameters: names_view(self.parameters@),
            return_type: self.return_type@,
            complete: self.complete,
        }
    }
}

/// The texts of a sequence of tokens.
pub open spec fn views(toks: Seq<TokenEntry>) -> Seq<TokenView> {
    toks.map_values(|t: TokenEntry| t@)
}

/// A comment line without its `//` marker.
pub open spec fn strip_marker(s: Seq<char>) -> Seq<char> {
    if s.len() >= 2 && s[0] == '/' && s[1] == '/' {
        s.subrange(2, s.len() as int)
    } else {
        s
    }
}

/// A comment line as the documentation shows it: no marker, no surrounding space.
pub open spec fn comment_line(s: Seq<char>) -> Seq<char> {
    trimmed(strip_marker(s))
}

/// The end of the run of comment tokens that starts at `i`.
pub open spec fn comments_end(s: Seq<TokenView>, i: nat) -> nat
    decreases s.len() - i,
{
    if i < s.len() && s[i as int].kind == "TokenSingleLineComment"@ {
        comments_end(s, i + 1)
    } else {
        i
    }
}

/// The first position, at `i` or after, of a token of kind `kind`.
pub open spec fn find_kind(s: Seq<TokenView>, i: nat, kind: Seq<char>) -> Option<nat>
    decreases s.len() - i,
{
    if i >= s.len() {
        None
    } else if s[i as int].kind == kind {
        Some(i)
    } else {
        find_kind(s, i + 1, kind)
    }
}

/// The position just after the first token of kind `kind` at `i` or after, or
/// the end when there is none.
pub open spec fn after_kind(s: Seq<TokenView>, i: nat, kind: Seq<char>) -> nat {
    match find_kind(s, i, kind) {
        Some(j) => j + 1,
        None => s.len(),
    }
}

/// A finished parameter joins the list unless it is empty.
pub open spec fn close_param(done: Seq<Seq<char>>, cur: Seq<char>) -> Seq<Seq<char>> {
    if cur.len() == 0 {
        done
    } else {
        done.push(cur)
    }
}

/// The parameters of `s[i..end]`, given those finished before `i` and the
/// words of the one under way: a comma ends a parameter, any other token adds
/// its text.
pub open spec fn params_from(
    s: Seq<TokenView>,
    i: nat,
    end: nat,
    done: Seq<Seq<char>>,
    cur: Seq<char>,
) -> Seq<Seq<char>>
    decreases end - i,
{
    if i >= end || i >= s.len() {
        close_param(done, cur)
    } else if s[i as int].kind == "TokenComma"@ {
        params_from(s, i + 1, end, close_param(done, cur), Seq::empty())
    } else {
        params_from(s, i + 1, end, done, join_word(cur, s[i as int].text))
    }
}

/// The return type in `s[i..end]`, given whether an arrow came before `i` and
/// the words since: an arrow starts it afresh, and only after an arrow does
/// a token add its text.
pub open spec fn return_from(
    s: Seq<TokenView>,
    i: nat,
    end: nat,
    explicit: bool,
    acc: Seq<char>,
) -> Seq<char>
    decreases end - i,
{
    if i >= end || i >= s.len() {
        acc
    } else if s[i as int].kind == "TokenArrow"@ {
        return_from(s, i + 1, end, true, Seq::empty())
    } else if explicit {
        return_from(s, i + 1, end, true, join_word(acc, s[i as int].text))
    } else {
        return_from(s, i + 1, end, false, acc)
    }
}

/// The end of a scan for `kind` from `i`: the position of that token, or the end.
pub open spec fn stop_at(s: Seq<TokenView>, i: nat, kind: Seq<char>) -> nat {
    match find_kind(s, i, kind) {
        Some(j) => j,
        None => s.len(),
    }
}

/// What the extractor yields for the tokens `s` of a function definition.
pub open spec fn extract_spec(s: Seq<TokenView>) -> FunctionDocView {
    let c = comments_end(s, 0);
    let lines = Seq::new(c, |k: int| comment_line(s[k].text));
    let kw = find_kind(s, c, "TokenFunction"@);
    let p = after_kind(s, c, "TokenFunction"@);
    let name_found = kw is Some && p < s.len();
    let a = after_kind(s, p, "TokenLParen"@);
    let r = stop_at(s, a, "TokenRParen"@);
    let b = after_kind(s, a, "TokenRParen"@);
    let e = stop_at(s, b, "TokenLBrace"@);
    FunctionDocView {
        name: if name_found { s[p as int].text } else { Seq::empty() },
        leading_comments: join_lines(lines),
        parameters: params_from(s, a, r, Seq::empty(), Seq::empty()),
        return_type: return_from(s, b, e, false, Seq::empty()),
        complete: name_found && find_kind(s, p, "TokenLParen"@) is Some && find_kind(
            s,
            a,
            "TokenRParen"@,
        ) is Some && find_kind(s, b, "TokenLBrace"@) is Some,
    }
}

/// Finds the first token of kind `kind` at `i` or after.
fn find_kind_from(tokens: &[TokenEntry], i: usize, kind: &str) -> (r: Option<usize>)
    requires
        i <= tokens@.len(),
    ensures
        r matches Some(j) ==> find_kind(views(tokens@), i as nat, kind@) == Some(j as nat) && i
            <= j < tokens@.len(),
        r is None ==> find_kind(views(tokens@), i as nat, kind@) is None,
{
    let ghost s = views(tokens@);
    let mut j: usize = i;
    while j < tokens.len()
        invariant
            s == views(tokens@),
            i <= j <= tokens@.len(),
            find_kind(s, i as nat, kind@) == find_kind(s, j as nat, kind@),
        decreases tokens@.len() - j,
    {
        if text_eq(tokens[j].kind.as_str(), kind) {
            return Some(j);
        }
        j = j + 1;
    }
    None
}

/// Adds `w` to the words of `cur`, after a space unless `cur` is empty.
fn push_word(cur: &mut String, w: &str)
    ensures
        final(cur)@ == join_word(old(cur)@, w@),
{
    if cur.unicode_len() != 0 {
        cur.append(" ");
    }
    cur.append(w);
}

/// Scans the tokens of a function definition for its documentation.
///
/// Leading comment tokens give the comment lines; the token after the
/// `fn` keyword is the name; the tokens between the parentheses, split at
/// commas, are the parameters; the tokens after an arrow and before the
/// opening brace are the return type. Nothing is an error: what is not found
/// stays empty and `complete` is false.
pub fn extract_function_doc(tokens: &[TokenEntry]) -> (r: FunctionDoc)
    ensures
        r@ == extract_spec(views(tokens@)),
{
    let ghost s = views(tokens@);
    let n = tokens.len();
    // Leading comments.
    let mut leading_comments = String::new();
    let mut i: usize = 0;
    let ghost mut lines: Seq<Seq<char>> = Seq::empty();
    while i < n && text_eq(tokens[i].kind.as_str(), "TokenSingleLineComment")
        invariant
            s == views(tokens@),
            n == tokens@.len(),
            i <= n,
            comments_end(s, 0) == comments_end(s, i as nat),
            lines == Seq::new(i as nat, |k: int| comment_line(s[k].text)),
            leading_comments@ == join_lines(lines),
        decreases n - i,
    {
        let stripped = strip_comment_marker(tokens[i].text.as_str());
        let line = trim_whitespace(stripped);
        if i > 0 {
            leading_comments.append("\n");
        }
        leading_comments.append(line.as_str());
        proof {
            let next = lines.push(comment_line(s[i as int].text));
            assert(next.drop_last() =~= lines);
            assert(next =~= Seq::new((i + 1) as nat, |k: int| comment_line(s[k].text)));
            lines = next;
        }
        i = i + 1;
    }
    // The name follows the keyword.
    let kw = find_kind_from(tokens, i, "TokenFunction");
    let p = match kw {
        Some(j) => j + 1,
        None => n,
    };
    let name_found = kw.is_some() && p < n;
    let name = if name_found {
        tokens[p].text.clone()
    } else {
        String::new()
    };
    // Parameters, up to the closing parenthesis.
    let lp = find_kind_from(tokens, p, "TokenLParen");
    let a = match lp {
        Some(j) => j + 1,
        None => n,
    };
    let rp = find_kind_from(tokens, a, "TokenRParen");
    let r_end = match rp {
        Some(j) => j,
        None => n,
    };
    let mut parameters: Vec<String> = Vec::new();
    let mut cur = String::new();
    assert(names_view(parameters@) =~= Seq::<Seq<char>>::empty());
    let mut k: usize = a;
    while k < r_end
        invariant
            s == views(tokens@),
            n == tokens@.len(),
            a <= k <= r_end <= n,
            params_from(s, a as nat, r_end as nat, Seq::empty(), Seq::empty()) == params_from(
                s,
                k as nat,
                r_end as nat,
                names_view(parameters@),
                cur@,
            ),
        decreases r_end - k,
    {
        if text_eq(tokens[k].kind.as_str(), "TokenComma") {
            if cur.unicode_len() != 0 {
                let ghost before = parameters@;
                parameters.push(cur);
                assert(names_view(parameters@) =~= names_view(before).push(cur@));
            }
            cur = String::new();
        } else {
            push_word(&mut cur, tokens[k].text.as_str());
        }
        k = k + 1;
    }
    if cur.unicode_len() != 0 {
        let ghost before = parameters@;
        parameters.push(cur);
        assert(names_view(parameters@) =~= names_view(before).push(cur@));
    }
    // Return type, up to the opening brace.
    let b = match rp {
        Some(j) => j + 1,
        None => n,
    };
    let lb = find_kind_from(tokens, b, "TokenLBrace");
    let e = match lb {
        Some(j) => j,
        None => n,
    };
    let mut return_type = String::new();
    let mut explicit = false;
    let mut k: usize = b;
    while k < e
        invariant
            s == views(tokens@),
            n == tokens@.len(),
            b <= k <= e <= n,
            return_from(s, b as nat, e as nat, false, Seq::empty()) == return_from(
                s,
                k as nat,
                e as nat,
                explicit,
                return_type@,
            ),
        decreases e - k,
    {
        if text_eq(tokens[k].kind.as_str(), "TokenArrow") {
            return_type = String::new();
            explicit = true;
        } else if explicit {
            push_word(&mut return_type, tokens[k].text.as_str());
        }
        k = k + 1;
    }
    let complete = name_found && lp.is_some() && rp.is_some() && lb.is_some();
    FunctionDoc { name, leading_comments, parameters, return_type, complete }
}

/// A comment line without its `//` marker.
pub fn strip_comment_marker(s: &str) -> (r: &str)
    ensures
        r@ == strip_marker(s@),
{
    let n = s.unicode_len();
    if n >= 2 && s.get_char(0) == '/' && s.get_char(1) == '/' {
        s.substring_char(2, n)
    } else {
        s
    }
}

} // verus!
