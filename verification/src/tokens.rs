//! Position reconstruction: turning a sequence of source tokens, each with
//! its start and end position, back into one text blob whose horizontal and
//! vertical spacing matches the original source, so that positions reported
//! by the markup parser can be mapped back to source locations.

use vstd::prelude::*;
use vstd::string::StringExecFns;
use crate::text::push_char;

verus! {

/// A lexical unit of the template source: its text and the line/column range
/// it covers. Lines and columns are zero-based, as the host toolchain
/// reports them.
#[derive(Clone, Debug)]
pub struct SourceToken {
    pub text: String,
    pub start_line: usize,
    pub start_col: usize,
    pub end_line: usize,
    pub end_col: usize,
}

/// The mathematical value of a [`SourceToken`].
pub ghost struct TokenModel {
    pub text: Seq<char>,
    pub start_line: int,
    pub start_col: int,
    pub end_line: int,
    pub end_col: int,
}

impl View for SourceToken {
    type V = TokenModel;

    open spec fn view(&self) -> TokenModel {
        TokenModel {
            text: self.text@,
            start_line: self.start_line as int,
            start_col: self.start_col as int,
            end_line: self.end_line as int,
            end_col: self.end_col as int,
        }
    }
}

/// The models of a sequence of source tokens, in order.
pub open spec fn tokens_model(s: Seq<SourceToken>) -> Seq<TokenModel> {
    s.map_values(|t: SourceToken| t@)
}

/// A run of `n` spaces, empty when `n` is negative.
pub open spec fn spaces(n: int) -> Seq<char> {
    Seq::new(if n > 0 { n as nat } else { 0 }, |i: int| ' ')
}

/// The text a token contributes: a newline plus baseline-relative indent
/// when it starts on a later line than the previous token ended, otherwise
/// the gap to the previous token's end column; then the token's own text.
pub open spec fn layout_piece(t: TokenModel, prev_end_line: int, prev_end_col: int, base: int) -> Seq<char> {
    if t.start_line > prev_end_line {
        seq!['\n'] + spaces(t.start_col - base) + t.text
    } else {
        spaces(t.start_col - prev_end_col) + t.text
    }
}

/// The text of all tokens after the first, threaded left to right through
/// the end position of the previously emitted token.
pub open spec fn layout_rest(ts: Seq<TokenModel>, prev_end_line: int, prev_end_col: int, base: int) -> Seq<char>
    decreases ts.len(),
{
    if ts.len() == 0 {
        Seq::empty()
    } else {
        layout_piece(ts[0], prev_end_line, prev_end_col, base) + layout_rest(
            ts.drop_first(),
            ts[0].end_line,
            ts[0].end_col,
            base,
        )
    }
}

/// The reconstructed text of a whole token sequence. The first token sets
/// the baseline column and contributes its text alone; every later token
/// contributes its [`layout_piece`].
pub open spec fn reconstructed(ts: Seq<TokenModel>) -> Seq<char> {
    if ts.len() == 0 {
        Seq::empty()
    } else {
        ts[0].text + layout_rest(ts.drop_first(), ts[0].end_line, ts[0].end_col, ts[0].start_col)
    }
}

/// Tokens that do not move to a later line never start left of the previous
/// token's end: the horizontal gap is well defined.
pub open spec fn wf_token_seq(ts: Seq<TokenModel>) -> bool {
    forall|i: int|
        1 <= i < ts.len() ==> ts[i].start_line > ts[i - 1].end_line || ts[i].start_col
            >= ts[i - 1].end_col
}

/// The end position that the layout state reaches after emitting `ts`,
/// starting from the given previous end position.
pub open spec fn end_line_after(ts: Seq<TokenModel>, prev_end_line: int) -> int {
    if ts.len() == 0 {
        prev_end_line
    } else {
        ts.last().end_line
    }
}

/// The end column counterpart of [`end_line_after`].
pub open spec fn end_col_after(ts: Seq<TokenModel>, prev_end_col: int) -> int {
    if ts.len() == 0 {
        prev_end_col
    } else {
        ts.last().end_col
    }
}

/// Appending one token to a layout extends the text by that token's piece,
/// relative to the end position the layout had reached.
proof fn lemma_layout_rest_snoc(ts: Seq<TokenModel>, t: TokenModel, prev_end_line: int, prev_end_col: int, base: int)
    ensures
        layout_rest(ts.push(t), prev_end_line, prev_end_col, base) == layout_rest(
            ts,
            prev_end_line,
            prev_end_col,
            base,
        ) + layout_piece(t, end_line_after(ts, prev_end_line), end_col_after(ts, prev_end_col), base),
    decreases ts.len(),
{
    if ts.len() == 0 {
        assert(ts.push(t)[0] == t);
        assert(ts.push(t).drop_first() =~= Seq::empty());
        assert(layout_rest(ts.push(t).drop_first(), t.end_line, t.end_col, base) == Seq::<
            char,
        >::empty());
        assert(layout_rest(ts.push(t), prev_end_line, prev_end_col, base) =~= layout_piece(
            t,
            prev_end_line,
            prev_end_col,
            base,
        ));
    } else {
        assert(ts.push(t).drop_first() =~= ts.drop_first().push(t));
        lemma_layout_rest_snoc(ts.drop_first(), t, ts[0].end_line, ts[0].end_col, base);
        assert(ts.drop_first().len() == ts.len() - 1);
        if ts.len() > 1 {
            assert(ts.drop_first().last() == ts.last());
        }
        assert(layout_piece(ts.push(t)[0], prev_end_line, prev_end_col, base) + (layout_rest(
            ts.drop_first(),
            ts[0].end_line,
            ts[0].end_col,
            base,
        ) + layout_piece(t, end_line_after(ts, prev_end_line), end_col_after(ts, prev_end_col), base))
            =~= (layout_piece(ts[0], prev_end_line, prev_end_col, base) + layout_rest(
            ts.drop_first(),
            ts[0].end_line,
            ts[0].end_col,
            base,
        )) + layout_piece(t, end_line_after(ts, prev_end_line), end_col_after(ts, prev_end_col), base));
    }
}

/// Appends `n` spaces to a string.
fn append_spaces(out: &mut String, n: usize)
    ensures
        final(out)@ == old(out)@ + spaces(n as int),
{
    let mut k: usize = 0;
    while k < n
        invariant
            k <= n,
            out@ == old(out)@ + spaces(k as int),
        decreases n - k,
    {
        push_char(out, ' ');
        proof {
            assert(old(out)@ + spaces(k + 1 as int) =~= (old(out)@ + spaces(k as int)).push(' '));
        }
        k = k + 1;
    }
    proof {
        assert(out@ =~= old(out)@ + spaces(n as int));
    }
}

/// Reconstructs the template text from its source tokens, preserving the
/// original spacing as far as the token positions describe it.
pub fn reconstruct(tokens: &Vec<SourceToken>) -> (r: String)
    requires
        wf_token_seq(tokens_model(tokens@)),
    ensures
        r@ == reconstructed(tokens_model(tokens@)),
{
    let ghost models = tokens_model(tokens@);
    let mut out = String::new();
    if tokens.len() == 0 {
        return out;
    }
    let base = tokens[0].start_col;
    out.append(tokens[0].text.as_str());
    let mut prev_end_line = tokens[0].end_line;
    let mut prev_end_col = tokens[0].end_col;
    let mut i: usize = 1;
    proof {
        assert(models.drop_first().take(0) =~= Seq::empty());
        assert(out@ =~= models[0].text + layout_rest(
            models.drop_first().take(0),
            models[0].end_line,
            models[0].end_col,
            models[0].start_col,
        ));
    }
    while i < tokens.len()
        invariant
            1 <= i <= tokens.len(),
            models == tokens_model(tokens@),
            models.len() == tokens.len(),
            wf_token_seq(models),
            base == models[0].start_col,
            prev_end_line as int == models[i - 1].end_line,
            prev_end_col as int == models[i - 1].end_col,
            out@ == models[0].text + layout_rest(
                models.drop_first().take(i - 1),
                models[0].end_line,
                models[0].end_col,
                models[0].start_col,
            ),
        decreases tokens.len() - i,
    {
        let t = &tokens[i];
        let ghost done = models.drop_first().take(i - 1);
        let ghost pl = end_line_after(done, models[0].end_line);
        let ghost pc = end_col_after(done, models[0].end_col);
        proof {
            if i > 1 {
                assert(done.last() == models[i - 1]);
            }
            assert(pl == prev_end_line as int);
            assert(pc == prev_end_col as int);
            assert(models[i as int] == tokens@[i as int]@);
            assert(models[i as int].start_line > models[i - 1].end_line || models[
                i as int
            ].start_col >= models[i - 1].end_col);
        }
        if t.start_line > prev_end_line {
            push_char(&mut out, '\n');
            let indent = if t.start_col > base {
                t.start_col - base
            } else {
                0
            };
            append_spaces(&mut out, indent);
            proof {
                assert(spaces(indent as int) =~= spaces(models[i as int].start_col - base));
            }
        } else {
            let gap = t.start_col - prev_end_col;
            append_spaces(&mut out, gap);
        }
        out.append(t.text.as_str());
        proof {
            lemma_layout_rest_snoc(done, models[i as int], models[0].end_line, models[0].end_col, models[0].start_col);
            assert(done.push(models[i as int]) =~= models.drop_first().take(i as int));
            if models[i as int].start_line > pl {
                assert(out@ =~= models[0].text + layout_rest(
                    models.drop_first().take(i as int),
                    models[0].end_line,
                    models[0].end_col,
                    models[0].start_col,
                ));
            } else {
                assert(out@ =~= models[0].text + layout_rest(
                    models.drop_first().take(i as int),
                    models[0].end_line,
                    models[0].end_col,
                    models[0].start_col,
                ));
            }
        }
        prev_end_line = t.end_line;
        prev_end_col = t.end_col;
        i = i + 1;
    }
    proof {
        assert(models.drop_first().take(i - 1) =~= models.drop_first());
    }
    out
}

} // verus!
