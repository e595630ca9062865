//! The text of the multi-row upsert, with its numbered placeholders.

use vstd::prelude::*;
use vstd::string::StringExecFns;

use crate::text::{decimal, push_char, push_decimal};

verus! {

/// The parts joined into one text, with the separator between neighbours.
pub open spec fn joined(parts: Seq<Seq<char>>, separator: Seq<char>) -> Seq<char>
    decreases parts.len(),
{
    if parts.len() == 0 {
        Seq::empty()
    } else if parts.len() == 1 {
        parts[0]
    } else {
        joined(parts.drop_last(), separator) + separator + parts.last()
    }
}

/// The placeholder of the parameter with the given number: `$` and the
/// number in decimal.
pub open spec fn placeholder(number: nat) -> Seq<char> {
    seq!['$'] + decimal(number)
}

/// The placeholders of one row, in parentheses. The parameters of row `row`
/// are numbered from `row * width + 1` on.
pub open spec fn row_placeholders(row: nat, width: nat) -> Seq<char> {
    seq!['('] + joined(Seq::new(width, |j: int| placeholder((row * width + j + 1) as nat)), ", "@)
        + seq![')']
}

/// The placeholders of all rows, one parenthesised group per row.
pub open spec fn values_clause(widths: Seq<nat>) -> Seq<char> {
    joined(Seq::new(widths.len(), |i: int| row_placeholders(i as nat, widths[i])), ", "@)
}

/// What the statement does with a row whose primary key is already stored:
/// prefecture, town and the update stamp are taken from the new row, and
/// the creation stamp stays.
pub open spec fn conflict_clause() -> Seq<char> {
    " ON CONFLICT (zip_code, prefecture_id, city, town) DO UPDATE SET prefecture = EXCLUDED.prefecture, town = EXCLUDED.town, updated_at = EXCLUDED.updated_at;"@
}

/// The whole statement for a table, its columns, and rows of the given
/// widths.
pub open spec fn bulk_insert_query(
    table_name: Seq<char>,
    columns: Seq<Seq<char>>,
    widths: Seq<nat>,
) -> Seq<char> {
    "INSERT INTO "@ + table_name + " ("@ + joined(columns, ", "@) + ") VALUES "@ + values_clause(
        widths,
    ) + conflict_clause()
}

/// The texts of a list of column names.
pub open spec fn names_view(names: Seq<&str>) -> Seq<Seq<char>> {
    Seq::new(names.len(), |i: int| names[i]@)
}

/// The widths of a list of rows.
pub open spec fn row_widths<T>(rows: Seq<Vec<T>>) -> Seq<nat> {
    Seq::new(rows.len(), |i: int| rows[i]@.len())
}

/// The parameters of all rows, row after row.
pub open spec fn all_params<T>(rows: Seq<Vec<T>>) -> Seq<T>
    decreases rows.len(),
{
    if rows.len() == 0 {
        Seq::empty()
    } else {
        all_params(rows.drop_last()) + rows.last()@
    }
}

/// What joining makes of one more part.
pub proof fn lemma_joined_push(parts: Seq<Seq<char>>, separator: Seq<char>, part: Seq<char>)
    ensures
        joined(parts.push(part), separator) == if parts.len() == 0 {
            part
        } else {
            joined(parts, separator) + separator + part
        },
{
    assert(parts.push(part).drop_last() =~= parts);
}

/// Appends the names, separated by a comma and a space.
fn push_names(out: &mut String, names: &[&str])
    ensures
        final(out)@ == old(out)@ + joined(names_view(names@), ", "@),
{
    let ghost all = names_view(names@);
    let mut i: usize = 0;
    assert(all.take(0) =~= Seq::<Seq<char>>::empty());
    assert(out@ =~= old(out)@ + joined(all.take(0), ", "@));
    while i < names.len()
        invariant
            i <= names.len(),
            all == names_view(names@),
            out@ == old(out)@ + joined(all.take(i as int), ", "@),
        decreases names.len() - i,
    {
        proof {
            lemma_joined_push(all.take(i as int), ", "@, names[i as int]@);
            assert(all.take(i as int).push(names[i as int]@) =~= all.take(i + 1));
        }
        if i > 0 {
            out.append(", ");
        }
        out.append(names[i]);
        assert(out@ =~= old(out)@ + joined(all.take(i + 1), ", "@));
        i = i + 1;
    }
    assert(all.take(names.len() as int) =~= all);
}

/// Appends the parenthesised placeholders of one row.
fn push_row_placeholders(out: &mut String, row: usize, width: usize)
    requires
        row * width + width <= usize::MAX,
    ensures
        final(out)@ == old(out)@ + row_placeholders(row as nat, width as nat),
{
    let ghost all = Seq::new(width as nat, |j: int| placeholder((row * width + j + 1) as nat));
    push_char(out, '(');
    let ghost opened = out@;
    let first: usize = row * width;
    let mut j: usize = 0;
    assert(all.take(0) =~= Seq::<Seq<char>>::empty());
    assert(out@ =~= opened + joined(all.take(0), ", "@));
    while j < width
        invariant
            j <= width,
            first == row * width,
            first + width <= usize::MAX,
            all == Seq::new(width as nat, |j: int| placeholder((row * width + j + 1) as nat)),
            out@ == opened + joined(all.take(j as int), ", "@),
        decreases width - j,
    {
        proof {
            lemma_joined_push(all.take(j as int), ", "@, all[j as int]);
            assert(all.take(j as int).push(all[j as int]) =~= all.take(j + 1));
        }
        if j > 0 {
            out.append(", ");
        }
        push_char(out, '$');
        push_decimal(out, (first + j + 1) as u64);
        assert(out@ =~= opened + joined(all.take(j + 1), ", "@));
        j = j + 1;
    }
    assert(all.take(width as int) =~= all);
    push_char(out, ')');
    assert(out@ =~= old(out)@ + row_placeholders(row as nat, width as nat));
}

/// Builds the multi-row upsert for the given table, columns and rows of
/// parameters: the statement, and the parameters of all rows in the order
/// of their placeholders.
pub fn build_pg_bulk_insert_query<T: Copy>(
    table_name: &str,
    columns: &[&str],
    data: &Vec<Vec<T>>,
) -> (built: (String, Vec<T>))
    requires
        forall|i: int|
            0 <= i < data@.len() ==> i * (#[trigger] data@[i])@.len() + data@[i]@.len()
                <= usize::MAX,
    ensures
        built.0@ == bulk_insert_query(table_name@, names_view(columns@), row_widths(data@)),
        built.1@ == all_params(data@),
{
    let mut query = String::from_str("INSERT INTO ");
    query.append(table_name);
    query.append(" (");
    push_names(&mut query, columns);
    query.append(") VALUES ");
    let ghost head = query@;
    let ghost widths = row_widths(data@);
    let ghost groups = Seq::new(widths.len(), |i: int| row_placeholders(i as nat, widths[i]));
    let mut params: Vec<T> = Vec::new();
    let mut i: usize = 0;
    assert(groups.take(0) =~= Seq::<Seq<char>>::empty());
    assert(query@ =~= head + joined(groups.take(0), ", "@));
    assert(data@.take(0) =~= Seq::<Vec<T>>::empty());
    while i < data.len()
        invariant
            i <= data.len(),
            widths == row_widths(data@),
            groups == Seq::new(widths.len(), |i: int| row_placeholders(i as nat, widths[i])),
            forall|k: int|
                0 <= k < data@.len() ==> k * (#[trigger] data@[k])@.len() + data@[k]@.len()
                    <= usize::MAX,
            query@ == head + joined(groups.take(i as int), ", "@),
            params@ == all_params(data@.take(i as int)),
        decreases data.len() - i,
    {
        proof {
            lemma_joined_push(groups.take(i as int), ", "@, groups[i as int]);
            assert(groups.take(i as int).push(groups[i as int]) =~= groups.take(i + 1));
            assert(data@.take(i + 1).drop_last() =~= data@.take(i as int));
            assert(data@.take(i + 1).last() == data@[i as int]);
        }
        if i > 0 {
            query.append(", ");
        }
        let row = &data[i];
        push_row_placeholders(&mut query, i, row.len());
        assert(query@ =~= head + joined(groups.take(i + 1), ", "@));
        let ghost before = params@;
        let mut j: usize = 0;
        while j < row.len()
            invariant
                j <= row.len(),
                params@ == before + row@.take(j as int),
            decreases row.len() - j,
        {
            params.push(row[j]);
            assert(params@ =~= before + row@.take(j + 1));
            j = j + 1;
        }
        assert(row@.take(row.len() as int) =~= row@);
        i = i + 1;
    }
    assert(groups.take(data.len() as int) =~= groups);
    assert(data@.take(data.len() as int) =~= data@);
    query.append(
        " ON CONFLICT (zip_code, prefecture_id, city, town) DO UPDATE SET prefecture = EXCLUDED.prefecture, town = EXCLUDED.town, updated_at = EXCLUDED.updated_at;",
    );
    (query, params)
}

} // verus!
