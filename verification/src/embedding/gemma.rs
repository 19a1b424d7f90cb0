//! The integer side of the EmbeddingGemma encoder: its files, its shapes and
//! which positions attend to which.

use crate::embedding::error::with_label;
use crate::text::{decimal, decimal_spec};
use vstd::prelude::*;
use vstd::string::StringExecFns;

verus! {

/// Width of what enters the first dense layer.
pub const DENSE_IN: usize = 768;

/// Width between the two dense layers.
pub const DENSE_HIDDEN: usize = 3072;

/// Width of what leaves the second dense layer.
pub const DENSE_OUT: usize = 768;

/// Paths of the files of one checkpoint.
#[derive(Debug, Clone, PartialEq, Eq)]
pub struct ModelFiles {
    pub config: String,
    pub tokenizer: String,
    pub weights: String,
    pub dense2: String,
    pub dense3: String,
}

/// Why a checkpoint could not be loaded or run.
#[derive(Debug)]
pub enum GemmaError {
    Io { path: String, source: String },
    Config(String),
    MissingPadToken,
    PadTokenNotInVocab(u32),
    Tokenizer(String),
    Candle(String),
}

impl GemmaError {
    /// The text shown to the user.
    pub open spec fn message_spec(self) -> Seq<char> {
        match self {
            GemmaError::Io { path, source } => "read "@ + path@ + ": "@ + source@,
            GemmaError::Config(t) => "parse config.json: "@ + t@,
            GemmaError::MissingPadToken => "config.json has no integer pad_token_id"@,
            GemmaError::PadTokenNotInVocab(id) => "pad token id "@ + decimal_spec(id as nat)
                + " is not in the tokenizer vocabulary"@,
            GemmaError::Tokenizer(t) => "tokenizer: "@ + t@,
            GemmaError::Candle(t) => "candle: "@ + t@,
        }
    }

    /// The text shown to the user.
    pub fn message(&self) -> (text: String)
        ensures
            text@ == self.message_spec(),
    {
        match self {
            GemmaError::Io { path, source } => {
                let mut text: String = with_label("read ", path);
                text.append(": ");
                text.append(source.as_str());
                text
            },
            GemmaError::Config(t) => with_label("parse config.json: ", t),
            GemmaError::MissingPadToken => "config.json has no integer pad_token_id".to_string(),
            GemmaError::PadTokenNotInVocab(id) => {
                let mut text: String = with_label("pad token id ", decimal(*id as u64).as_str());
                text.append(" is not in the tokenizer vocabulary");
                text
            },
            GemmaError::Tokenizer(t) => with_label("tokenizer: ", t),
            GemmaError::Candle(t) => with_label("candle: ", t),
        }
    }
}

/// The padding token's id, given the integer that the configuration has under
/// that key.
pub fn gemma_pad_id(value: Option<u64>) -> (result: Result<u32, GemmaError>)
    ensures
        match result {
            Ok(id) => value == Some(id as u64),
            Err(e) => e is MissingPadToken && (value is None || value->Some_0 > u32::MAX),
        },
{
    match value {
        Some(id) => if id <= 0xffff_ffff {
            Ok(id as u32)
        } else {
            Err(GemmaError::MissingPadToken)
        },
        None => Err(GemmaError::MissingPadToken),
    }
}

/// The padding token that the vocabulary has for `pad_id`, or the error that
/// it has none.
pub fn gemma_pad_token(pad_id: u32, found: Option<String>) -> (result: Result<String, GemmaError>)
    ensures
        match result {
            Ok(token) => found is Some && token@ == found->Some_0@,
            Err(e) => found is None && e == GemmaError::PadTokenNotInVocab(pad_id),
        },
{
    match found {
        Some(token) => Ok(token),
        None => Err(GemmaError::PadTokenNotInVocab(pad_id)),
    }
}

/// Which positions a layer attends to.
#[derive(Debug, Clone, Copy, PartialEq, Eq, Structural)]
pub enum AttentionKind {
    Full,
    Sliding,
}

/// Every `pattern`-th layer, counted from one, attends to all positions.
pub open spec fn layer_kind_spec(i: int, pattern: int) -> AttentionKind {
    if (i + 1) % pattern == 0 {
        AttentionKind::Full
    } else {
        AttentionKind::Sliding
    }
}

/// The kinds of a model's layers, in order.
pub fn layer_kinds(layers: usize, pattern: usize) -> (kinds: Vec<AttentionKind>)
    requires
        pattern > 0,
    ensures
        kinds@ == Seq::new(layers as nat, |i: int| layer_kind_spec(i, pattern as int)),
{
    let mut kinds: Vec<AttentionKind> = Vec::new();
    for i in 0..layers
        invariant
            pattern > 0,
            kinds@.len() == i,
            forall|j: int| 0 <= j < i ==> kinds@[j] == layer_kind_spec(j, pattern as int),
    {
        if (i + 1) % pattern == 0 {
            kinds.push(AttentionKind::Full);
        } else {
            kinds.push(AttentionKind::Sliding);
        }
    }
    proof {
        assert(kinds@ =~= Seq::new(layers as nat, |i: int| layer_kind_spec(i, pattern as int)));
    }
    kinds
}

/// How far apart two positions are.
pub open spec fn distance(i: int, j: int) -> int {
    if i >= j {
        i - j
    } else {
        j - i
    }
}

/// Position `i` attends to position `j`: in both directions within half the
/// window, or only backwards within the window; without a window, to all or
/// to all before it.
pub open spec fn attends(i: int, j: int, bidirectional: bool, window: Option<usize>) -> bool {
    match window {
        Some(size) => if bidirectional {
            distance(i, j) <= (size as int) / 2
        } else {
            j <= i && i - j < size
        },
        None => bidirectional || j <= i,
    }
}

/// One where a position attends, else zero.
pub open spec fn grid_cell(i: int, j: int, bidirectional: bool, window: Option<usize>) -> u8 {
    if attends(i, j, bidirectional, window) {
        1
    } else {
        0
    }
}

/// Row `i` of the grid.
pub open spec fn grid_row(
    i: int,
    seq: nat,
    bidirectional: bool,
    window: Option<usize>,
) -> Seq<u8> {
    Seq::new(seq, |j: int| grid_cell(i, j, bidirectional, window))
}

/// The first `n` rows of the grid, one after the other.
pub open spec fn grid(n: nat, seq: nat, bidirectional: bool, window: Option<usize>) -> Seq<u8>
    decreases n,
{
    if n == 0 {
        Seq::empty()
    } else {
        grid((n - 1) as nat, seq, bidirectional, window) + grid_row(
            n - 1,
            seq,
            bidirectional,
            window,
        )
    }
}

/// Whether position `i` attends to position `j`.
fn allowed(i: usize, j: usize, bidirectional: bool, window: Option<usize>) -> (yes: bool)
    ensures
        yes == attends(i as int, j as int, bidirectional, window),
{
    match window {
        Some(size) => if bidirectional {
            let apart: usize = if i >= j {
                i - j
            } else {
                j - i
            };
            apart <= size / 2
        } else {
            j <= i && i - j < size
        },
        None => bidirectional || j <= i,
    }
}

/// The window that a layer's kind gives.
pub fn window_of(kind: AttentionKind, sliding_window: usize) -> (window: Option<usize>)
    ensures
        window == (if kind is Sliding {
            Some(sliding_window)
        } else {
            None
        }),
{
    match kind {
        AttentionKind::Sliding => Some(sliding_window),
        AttentionKind::Full => None,
    }
}

/// The grid of `seq` positions against `seq` positions: one where a position
/// may attend, else zero, row after row.
pub fn attention_pattern(seq: usize, bidirectional: bool, window: Option<usize>) -> (pattern: Vec<
    u8,
>)
    ensures
        pattern@ == grid(seq as nat, seq as nat, bidirectional, window),
{
    let mut pattern: Vec<u8> = Vec::new();
    for i in 0..seq
        invariant
            pattern@ == grid(i as nat, seq as nat, bidirectional, window),
    {
        let ghost above = pattern@;
        let ghost row = grid_row(i as int, seq as nat, bidirectional, window);
        proof {
            assert(above + row.take(0) =~= above);
        }
        for j in 0..seq
            invariant
                row == grid_row(i as int, seq as nat, bidirectional, window),
                pattern@ == above + row.take(j as int),
        {
            if allowed(i, j, bidirectional, window) {
                pattern.push(1);
            } else {
                pattern.push(0);
            }
            proof {
                assert(row[j as int] == grid_cell(i as int, j as int, bidirectional, window));
                assert(above + row.take(j as int + 1) =~= (above + row.take(j as int)).push(
                    row[j as int],
                ));
            }
        }
        proof {
            assert(row.take(row.len() as int) =~= row);
        }
    }
    pattern
}

/// The cell of positions `i` and `j` stands at `i * seq + j`.
pub proof fn grid_index(
    n: nat,
    seq: nat,
    bidirectional: bool,
    window: Option<usize>,
    i: int,
    j: int,
)
    requires
        0 <= i < n,
        0 <= j < seq,
    ensures
        grid(n, seq, bidirectional, window).len() == n * seq,
        0 <= i * seq + j < n * seq,
        grid(n, seq, bidirectional, window)[i * seq + j] == grid_cell(i, j, bidirectional, window),
    decreases n,
{
    let m = (n - 1) as nat;
    let above = grid(m, seq, bidirectional, window);
    assert(m * seq + seq == n * seq) by (nonlinear_arith)
        requires
            n == m + 1,
    ;
    if m > 0 {
        grid_index(m, seq, bidirectional, window, if i < m { i } else { 0 }, j);
    } else {
        assert(above.len() == 0);
        assert(m * seq == 0) by (nonlinear_arith)
            requires
                m == 0,
        ;
    }
    assert(above.len() == m * seq);
    if i == m {
        assert(i * seq == m * seq);
        assert(grid(n, seq, bidirectional, window)[i * seq + j] == grid_row(
            i,
            seq,
            bidirectional,
            window,
        )[j]);
    } else {
        assert(i * seq + j < m * seq) by (nonlinear_arith)
            requires
                0 <= i < m,
                0 <= j < seq,
        ;
        assert(0 <= i * seq) by (nonlinear_arith)
            requires
                0 <= i,
                0 <= seq,
        ;
    }
}

/// In both directions attention is mutual, and every position attends to
/// itself unless a backwards window is empty.
pub proof fn attention_laws(i: int, j: int, window: Option<usize>)
    ensures
        attends(i, j, true, window) == attends(j, i, true, window),
        attends(i, i, true, window),
        attends(i, i, false, window) == (window != Some(0usize)),
{
}

/// The sizes that the attention layers are built from.
#[derive(Debug, Clone, Copy, PartialEq, Eq, Structural)]
pub struct AttentionConfig {
    pub hidden_size: usize,
    pub num_attention_heads: usize,
    pub num_key_value_heads: usize,
    pub head_dim: usize,
}

/// The width of a projection to or from the heads.
#[derive(Debug, Clone, Copy, PartialEq, Eq, Structural)]
pub struct AttentionShape {
    /// Width of the queries, and of what the output projection takes.
    pub query_width: usize,
    /// Width of the keys and of the values.
    pub kv_width: usize,
    /// How often each key and value head is used.
    pub repeat: usize,
}

/// The widths of the projections.
pub fn attention_shape(cfg: &AttentionConfig) -> (shape: AttentionShape)
    requires
        cfg.num_key_value_heads > 0,
        cfg.num_attention_heads * cfg.head_dim <= usize::MAX,
        cfg.num_key_value_heads * cfg.head_dim <= usize::MAX,
    ensures
        shape.query_width == cfg.num_attention_heads * cfg.head_dim,
        shape.kv_width == cfg.num_key_value_heads * cfg.head_dim,
        shape.repeat == cfg.num_attention_heads as int / cfg.num_key_value_heads as int,
{
    AttentionShape {
        query_width: cfg.num_attention_heads * cfg.head_dim,
        kv_width: cfg.num_key_value_heads * cfg.head_dim,
        repeat: cfg.num_attention_heads / cfg.num_key_value_heads,
    }
}

/// Of every `pattern` layers in a row exactly one attends to all positions, and
/// the last of the first `pattern` does.
pub proof fn one_layer_in_a_pattern_is_full(first: int, pattern: int)
    requires
        pattern > 0,
        first >= 0,
    ensures
        layer_kind_spec(pattern - 1, pattern) is Full,
        layer_kind_spec(first + pattern, pattern) == layer_kind_spec(first, pattern),
        forall|a: int, b: int|
            first <= a < b < first + pattern && #[trigger] layer_kind_spec(a, pattern) is Full
                ==> #[trigger] layer_kind_spec(b, pattern) is Sliding,
        exists|a: int| first <= a < first + pattern && #[trigger] layer_kind_spec(a, pattern) is Full,
{
    assert(pattern % pattern == 0) by (nonlinear_arith)
        requires
            pattern > 0,
    ;
    assert((first + 1 + pattern) % pattern == (first + 1) % pattern) by (nonlinear_arith)
        requires
            pattern > 0,
    ;
    let r = (first + 1) % pattern;
    let q = (first + 1) / pattern;
    assert(first + 1 == q * pattern + r && 0 <= r < pattern) by (nonlinear_arith)
        requires
            r == (first + 1) % pattern,
            q == (first + 1) / pattern,
            pattern > 0,
    ;
    let full = if r == 0 {
        first
    } else {
        first + pattern - r
    };
    assert((full + 1) % pattern == 0) by (nonlinear_arith)
        requires
            pattern > 0,
            first + 1 == q * pattern + r,
            full == (if r == 0 {
                first
            } else {
                first + pattern - r
            }),
    ;
    assert(layer_kind_spec(full, pattern) is Full);
    assert forall|a: int, b: int|
        first <= a < b < first + pattern && #[trigger] layer_kind_spec(a, pattern) is Full implies (
    #[trigger] layer_kind_spec(b, pattern)) is Sliding by {
        assert((b + 1) % pattern != 0) by (nonlinear_arith)
            requires
                pattern > 0,
                (a + 1) % pattern == 0,
                a < b < a + pattern,
        ;
    }
}

/// Attention goes by the distance alone: in both directions up to half the
/// window, backwards to as many positions as the window holds, the position
/// itself among them; never ahead where it goes backwards; and a wider window
/// leaves out nothing that a narrower one holds.
pub proof fn attention_goes_by_distance(i: int, j: int, by: int, window: usize, wider: usize)
    requires
        window <= wider,
    ensures
        forall|both: bool, w: Option<usize>|
            attends(i + by, j + by, both, w) == #[trigger] attends(i, j, both, w),
        attends(i, j, true, Some(window)) <==> -(window as int / 2) <= i - j <= window as int / 2,
        attends(i, j, false, Some(window)) <==> 0 <= i - j < window,
        attends(i, j, true, None),
        attends(i, j, false, None) <==> j <= i,
        forall|both: bool|
            #[trigger] attends(i, j, both, Some(window)) ==> attends(i, j, both, Some(wider))
                && attends(i, j, both, None),
{
    assert(window as int / 2 <= wider as int / 2);
}

} // verus!
