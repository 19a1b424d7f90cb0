//! The SQL texts that select and change stored rows.

use crate::config::schema::{is_name_char, name_fault};
use crate::ingest::time::Timestamp;
use crate::reading::{behind, joined_lacks, number_is_plain, split_at_stop, upto};
use crate::text::{
    decimal_spec, parse_int_spec, signed_decimal, signed_decimal_reads_back, signed_decimal_spec,
    to_chars,
};
use vstd::prelude::*;
use vstd::string::StringExecFns;

verus! {

/// The text of `c` inside a quoted literal: a quote is written twice.
pub open spec fn escaped_char(c: char) -> Seq<char> {
    if c == '\'' {
        seq!['\'', '\'']
    } else {
        seq![c]
    }
}

/// The text of `value` inside a quoted literal.
pub open spec fn escaped(value: Seq<char>) -> Seq<char>
    decreases value.len(),
{
    if value.len() == 0 {
        Seq::empty()
    } else {
        escaped_char(value[0]) + escaped(value.skip(1))
    }
}

/// The text of `value` inside a quoted literal; the quotes around it are the
/// caller's.
pub fn sql_escape(value: &str) -> (text: String)
    ensures
        text@ == escaped(value@),
{
    let chars: Vec<char> = to_chars(value);
    let mut text: String = String::new();
    proof {
        assert(chars@.skip(0) =~= chars@);
        assert(text@ + escaped(chars@) =~= escaped(chars@));
    }
    for i in 0..chars.len()
        invariant
            text@ + escaped(chars@.skip(i as int)) == escaped(chars@),
    {
        let ghost before = text@;
        let ghost left = chars@.skip(i as int);
        if chars[i] == '\'' {
            text.push('\'');
        }
        text.push(chars[i]);
        proof {
            assert(left[0] == chars@[i as int]);
            assert(left.skip(1) =~= chars@.skip(i as int + 1));
            assert(text@ =~= before + escaped_char(left[0]));
            assert(before + (escaped_char(left[0]) + escaped(left.skip(1))) =~= text@ + escaped(
                left.skip(1),
            ));
        }
    }
    proof {
        assert(chars@.skip(chars@.len() as int) =~= Seq::empty());
        assert(text@ + escaped(Seq::empty()) =~= text@);
    }
    text
}

/// What a reader makes of a literal, given the text behind its opening quote:
/// the value, and what follows the closing quote.
pub open spec fn read_literal(text: Seq<char>) -> Option<(Seq<char>, Seq<char>)>
    decreases text.len(),
{
    if text.len() == 0 {
        None
    } else if text[0] != '\'' {
        match read_literal(text.skip(1)) {
            Some((value, rest)) => Some((seq![text[0]] + value, rest)),
            None => None,
        }
    } else if text.len() > 1 && text[1] == '\'' {
        match read_literal(text.skip(2)) {
            Some((value, rest)) => Some((seq!['\''] + value, rest)),
            None => None,
        }
    } else {
        Some((Seq::empty(), text.skip(1)))
    }
}

/// An escaped literal reads back as its value and ends at its own closing
/// quote, whatever the value holds.
pub proof fn escaped_literal_reads_back(value: Seq<char>, rest: Seq<char>)
    requires
        rest.len() == 0 || rest[0] != '\'',
    ensures
        read_literal(escaped(value) + seq!['\''] + rest) == Some((value, rest)),
    decreases value.len(),
{
    let text = escaped(value) + seq!['\''] + rest;
    if value.len() == 0 {
        assert(text =~= seq!['\''] + rest);
        assert(text.skip(1) =~= rest);
        assert(value =~= Seq::empty());
    } else {
        let tail = escaped(value.skip(1)) + seq!['\''] + rest;
        escaped_literal_reads_back(value.skip(1), rest);
        assert(value =~= seq![value[0]] + value.skip(1));
        if value[0] == '\'' {
            assert(text.skip(2) =~= tail);
        } else {
            assert(text.skip(1) =~= tail);
        }
    }
}

/// A valid collection name stands in a literal as it is.
pub proof fn valid_name_needs_no_escape(name: Seq<char>)
    requires
        name_fault(name) is None,
    ensures
        escaped(name) == name,
{
    no_quote_no_escape(name);
}

proof fn no_quote_no_escape(value: Seq<char>)
    requires
        forall|i: int| 0 <= i < value.len() ==> is_name_char(#[trigger] value[i]),
    ensures
        escaped(value) == value,
    decreases value.len(),
{
    if value.len() == 0 {
        assert(escaped(value) =~= value);
    } else {
        let tail = value.skip(1);
        assert(is_name_char(value[0]));
        assert forall|i: int| 0 <= i < tail.len() implies is_name_char(#[trigger] tail[i]) by {
            assert(tail[i] == value[i + 1]);
        }
        no_quote_no_escape(tail);
        assert(escaped(value) =~= value);
    }
}

/// The predicate that selects the rows of one file.
pub open spec fn row_predicate_spec(collection: Seq<char>, path: Seq<char>) -> Seq<char> {
    "collection = '"@ + escaped(collection) + "' AND path = '"@ + escaped(path) + "'"@
}

/// The predicate that selects the rows of one file.
pub fn row_predicate(collection: &str, path: &str) -> (text: String)
    ensures
        text@ == row_predicate_spec(collection@, path@),
{
    let mut text: String = "collection = '".to_string();
    text.append(sql_escape(collection).as_str());
    text.append("' AND path = '");
    text.append(sql_escape(path).as_str());
    text.append("'");
    text
}

/// The quoted names, with `", "` between neighbours.
pub open spec fn name_literals(names: Seq<String>) -> Seq<char>
    decreases names.len(),
{
    if names.len() == 0 {
        Seq::empty()
    } else {
        let before = name_literals(names.drop_last());
        let separator = if names.len() == 1 {
            "'"@
        } else {
            ", '"@
        };
        before + separator + escaped(names.last()@) + "'"@
    }
}

/// The predicate that selects the rows of the named collections.
pub open spec fn collection_filter_spec(names: Seq<String>) -> Seq<char> {
    "collection IN ("@ + name_literals(names) + ")"@
}

/// The predicate that selects the rows of the named collections; none selects
/// all.
pub fn collection_filter(names: &[String]) -> (filter: Option<String>)
    ensures
        match filter {
            Some(text) => names@.len() > 0 && text@ == collection_filter_spec(names@),
            None => names@.len() == 0,
        },
{
    if names.len() == 0 {
        return None;
    }
    let mut list: String = String::new();
    proof {
        assert(list@ =~= Seq::empty());
    }
    for i in 0..names.len()
        invariant
            list@ == name_literals(names@.take(i as int)),
    {
        proof {
            assert(names@.take(i as int + 1).drop_last() =~= names@.take(i as int));
        }
        if i == 0 {
            list.append("'");
        } else {
            list.append(", '");
        }
        list.append(sql_escape(names[i].as_str()).as_str());
        list.append("'");
    }
    proof {
        assert(names@.take(names@.len() as int) =~= names@);
    }
    let mut text: String = "collection IN (".to_string();
    text.append(list.as_str());
    text.append(")");
    Some(text)
}

/// The expression for a time in microseconds, cast to the column's type.
pub open spec fn mtime_expression_spec(micros: int) -> Seq<char> {
    "arrow_cast("@ + signed_decimal_spec(micros) + ", 'Timestamp(Microsecond, Some(\"UTC\"))')"@
}

/// The expression for a time: its microseconds, cast to the column's type.
pub fn mtime_expression(mtime: &Timestamp) -> (text: String)
    ensures
        text@ == mtime_expression_spec(mtime.nanos_since_epoch() / 1_000),
{
    let mut text: String = "arrow_cast(".to_string();
    text.append(signed_decimal(mtime.timestamp_micros()).as_str());
    text.append(", 'Timestamp(Microsecond, Some(\"UTC\"))')");
    text
}

/// What a reader makes of a list of literals with `", "` between neighbours: the
/// values, in order; none where the text is no such list.
pub open spec fn read_literals(text: Seq<char>) -> Option<Seq<Seq<char>>>
    decreases text.len(),
{
    if text.len() == 0 || text[0] != '\'' {
        None
    } else {
        match read_literal(text.skip(1)) {
            None => None,
            Some((value, rest)) => if rest.len() == 0 {
                Some(seq![value])
            } else if 2 <= rest.len() < text.len() && rest[0] == ',' && rest[1] == ' ' {
                match read_literals(rest.skip(2)) {
                    Some(values) => Some(seq![value] + values),
                    None => None,
                }
            } else {
                None
            },
        }
    }
}

proof fn literals_from_front(names: Seq<String>)
    requires
        names.len() > 0,
    ensures
        name_literals(names) == seq!['\''] + escaped(names[0]@) + seq!['\''] + (if names.len()
            == 1 {
            Seq::empty()
        } else {
            seq![',', ' '] + name_literals(names.skip(1))
        }),
    decreases names.len(),
{
    reveal_strlit("'");
    reveal_strlit(", '");
    let first = seq!['\''] + escaped(names[0]@) + seq!['\''];
    let short = names.drop_last();
    if names.len() == 1 {
        assert(name_literals(short) =~= Seq::empty());
        assert(name_literals(names) =~= first + Seq::<char>::empty());
    } else {
        literals_from_front(short);
        assert(names.skip(1).drop_last() =~= short.skip(1));
        assert(name_literals(short.skip(1)).len() >= 0);
        if short.len() == 1 {
            assert(names.skip(1).drop_last() =~= Seq::empty());
            assert(name_literals(Seq::<String>::empty()) =~= Seq::empty());
        }
        assert(name_literals(names) =~= first + (seq![',', ' '] + name_literals(names.skip(1))));
    }
}

/// The list in a filter reads back as the names that were given: all of them, in
/// order, whatever they hold and however many they are.
pub proof fn name_literals_read_back(names: Seq<String>)
    requires
        names.len() > 0,
    ensures
        read_literals(name_literals(names)) == Some(names.map_values(|n: String| n@)),
    decreases names.len(),
{
    let text = name_literals(names);
    let view = |n: String| n@;
    literals_from_front(names);
    let rest = if names.len() == 1 {
        Seq::<char>::empty()
    } else {
        seq![',', ' '] + name_literals(names.skip(1))
    };
    assert(text.skip(1) =~= escaped(names[0]@) + seq!['\''] + rest);
    escaped_literal_reads_back(names[0]@, rest);
    if names.len() == 1 {
        assert(names.map_values(view) =~= seq![names[0]@]);
    } else {
        name_literals_read_back(names.skip(1));
        assert(rest.skip(2) =~= name_literals(names.skip(1)));
        assert(names.map_values(view) =~= seq![names[0]@] + names.skip(1).map_values(view));
    }
}

/// What a reader makes of a predicate that names one collection and one path.
pub open spec fn read_row_predicate(text: Seq<char>) -> Option<(Seq<char>, Seq<char>)> {
    let head = "collection = '"@;
    let middle = " AND path = '"@;
    if !head.is_prefix_of(text) {
        None
    } else {
        match read_literal(text.skip(head.len() as int)) {
            None => None,
            Some((collection, rest)) => if !middle.is_prefix_of(rest) {
                None
            } else {
                match read_literal(rest.skip(middle.len() as int)) {
                    Some((path, end)) => if end.len() == 0 {
                        Some((collection, path))
                    } else {
                        None
                    },
                    None => None,
                }
            },
        }
    }
}

/// The predicate of a file reads back as the file's collection and path,
/// whatever they hold: it selects that file and no other.
pub proof fn row_predicate_reads_back(collection: Seq<char>, path: Seq<char>)
    ensures
        read_row_predicate(row_predicate_spec(collection, path)) == Some((collection, path)),
{
    reveal_strlit("collection = '");
    reveal_strlit("' AND path = '");
    reveal_strlit(" AND path = '");
    reveal_strlit("'");
    let text = row_predicate_spec(collection, path);
    let head = "collection = '"@;
    let middle = " AND path = '"@;
    let tail = escaped(path) + seq!['\''] + Seq::<char>::empty();
    assert("' AND path = '"@ =~= seq!['\''] + middle);
    assert("'"@ =~= seq!['\'']);
    assert(text =~= head + (escaped(collection) + seq!['\''] + (middle + tail)));
    assert(head.is_prefix_of(text));
    assert(text.skip(head.len() as int) =~= escaped(collection) + seq!['\''] + (middle + tail));
    escaped_literal_reads_back(collection, middle + tail);
    assert(middle.is_prefix_of(middle + tail));
    assert((middle + tail).skip(middle.len() as int) =~= tail);
    escaped_literal_reads_back(path, Seq::empty());
}

/// The number in the expression for a time reads back as the time: it stands
/// between the first bracket and the comma behind it.
pub proof fn mtime_expression_reads_back(micros: int)
    ensures
        parse_int_spec(upto(behind(mtime_expression_spec(micros), '('), ',')) == Some(micros),
{
    let number = signed_decimal_spec(micros);
    signed_decimal_reads_back(micros);
    let n = if micros < 0 {
        (-micros) as nat
    } else {
        micros as nat
    };
    number_is_plain(n);
    assert(!seq!['-'].contains(','));
    if micros < 0 {
        joined_lacks(seq!['-'], decimal_spec(n), ',');
    }
    let tail = ", 'Timestamp(Microsecond, Some(\"UTC\"))')"@;
    reveal_strlit(", 'Timestamp(Microsecond, Some(\"UTC\"))')");
    reveal_strlit("arrow_cast(");
    reveal_strlit("arrow_cast");
    let head = "arrow_cast"@;
    assert("arrow_cast("@ =~= head + seq!['(']);
    assert(!head.contains('('));
    assert(mtime_expression_spec(micros) =~= head + seq!['('] + (number + tail));
    split_at_stop(head, '(', number + tail);
    assert(tail =~= seq![','] + tail.skip(1));
    assert(number + tail =~= number + seq![','] + tail.skip(1));
    split_at_stop(number, ',', tail.skip(1));
}

/// What a reader makes of a predicate that asks for one of several collections.
pub open spec fn read_filter(text: Seq<char>) -> Option<Seq<Seq<char>>> {
    let head = "collection IN ("@;
    if head.is_prefix_of(text) && text.len() > head.len() && text.last() == ')' {
        read_literals(text.subrange(head.len() as int, text.len() - 1))
    } else {
        None
    }
}

/// The filter asks for exactly the collections that were given, all of them.
pub proof fn collection_filter_reads_back(names: Seq<String>)
    requires
        names.len() > 0,
    ensures
        read_filter(collection_filter_spec(names)) == Some(names.map_values(|n: String| n@)),
{
    let head = "collection IN ("@;
    let text = collection_filter_spec(names);
    assert(")"@ =~= seq![')']) by {
        reveal_strlit(")");
    }
    assert(head.is_prefix_of(text));
    assert(text.subrange(head.len() as int, text.len() - 1) =~= name_literals(names));
    name_literals_read_back(names);
}

} // verus!
