//! Which fields the `UpdateParams` derive passes as statement parameters.

use vstd::prelude::*;
use crate::statement::{matching, matching_names};
use crate::text::{decimal, keep_ident_chars, split_char, string_views, trim_all};
use crate::updateable::{set_items, update_column_list};
use crate::statement::opt_view;
use crate::utils::{
    FieldPatternError, extract_fields_from_where_clause, field_condition_pattern, present,
    regex_group_one, regex_is_valid,
};

verus! {

/// The fields of the UPDATE parameters: the updated columns that are
/// fields (all fields without an `update` attribute), then the fields that
/// the WHERE clause compares with a placeholder, each in its own order.
pub open spec fn update_fields(attr: Option<Seq<char>>, where_clause: Seq<char>, fields: Seq<Seq<char>>) -> Seq<Seq<char>> {
    matching(update_column_list(attr, fields), fields)
        + matching(present(regex_group_one(field_condition_pattern(), where_clause)), fields)
}

/// The fields whose values the `UpdateParams` derive passes, in order:
/// first the values of the SET items, then those of the WHERE conditions.
/// Without an `update` attribute every field is updated.
pub fn update_param_fields(
    update_attr: Option<&str>,
    where_clause: &str,
    fields: &Vec<String>,
) -> (r: Result<Vec<String>, FieldPatternError>)
    ensures
        r is Err <==> !regex_is_valid(field_condition_pattern()),
        r matches Ok(v) ==> string_views(v@) == update_fields(opt_view(update_attr), where_clause@, string_views(fields@)),
{
    let update_cols = match update_attr {
        Some(attr) => {
            let pieces = split_char(attr, ',');
            trim_all(&pieces)
        },
        None => fields.clone(),
    };
    let condition_fields = extract_fields_from_where_clause(where_clause)?;
    let mut result = matching_names(&update_cols, fields);
    let ghost first = result@;
    let mut condition_names = matching_names(&condition_fields, fields);
    result.append(&mut condition_names);
    assert(string_views(result@) =~= update_fields(opt_view(update_attr), where_clause@, string_views(fields@)));
    Ok(result)
}


proof fn lemma_matching_is_filter(cols: Seq<Seq<char>>, fields: Seq<Seq<char>>)
    ensures
        matching(cols, fields) == cols.filter(|c: Seq<char>| fields.contains(c)),
    decreases cols.len(),
{
    reveal(Seq::filter);
    if cols.len() > 0 {
        lemma_matching_is_filter(cols.drop_last(), fields);
    }
}

proof fn lemma_matching_all(cols: Seq<Seq<char>>, fields: Seq<Seq<char>>)
    requires
        forall|i: int| 0 <= i < cols.len() ==> fields.contains(#[trigger] cols[i]),
    ensures
        matching(cols, fields) == cols,
    decreases cols.len(),
{
    if cols.len() > 0 {
        let c0 = cols.drop_last();
        assert forall|i: int| 0 <= i < c0.len() implies fields.contains(#[trigger] c0[i]) by {
            assert(c0[i] == cols[i]);
        }
        lemma_matching_all(c0, fields);
        assert(fields.contains(cols[cols.len() - 1]));
        assert(c0.push(cols.last()) =~= cols);
    }
}

/// The UPDATE parameters start with the values of the SET items, in the
/// order of the columns of the `update` attribute (of the fields without
/// one): the first entries are exactly the updated columns that are
/// fields, in the column order. When every updated column is a field,
/// parameter `i` is column `i`, and SET item `i` assigns that column the
/// placeholder `$<i + 1>`.
pub proof fn law_update_params_follow_set_order(attr: Option<Seq<char>>, where_clause: Seq<char>, fields: Seq<Seq<char>>)
    ensures
        ({
            let set_values = update_column_list(attr, fields).filter(|c: Seq<char>| fields.contains(c));
            set_values.len() <= update_fields(attr, where_clause, fields).len()
            && update_fields(attr, where_clause, fields).take(set_values.len() as int) == set_values
        }),
        (forall|i: int| 0 <= i < update_column_list(attr, fields).len() ==>
            fields.contains(#[trigger] update_column_list(attr, fields)[i])) ==>
            forall|i: int| 0 <= i < update_column_list(attr, fields).len() ==>
                #[trigger] update_fields(attr, where_clause, fields)[i] == update_column_list(attr, fields)[i]
                && set_items(update_column_list(attr, fields))[i]
                    == keep_ident_chars(update_fields(attr, where_clause, fields)[i])
                        + seq![' ', '=', ' ', '$'] + decimal((i + 1) as nat),
{
    let cols = update_column_list(attr, fields);
    let first = matching(cols, fields);
    let rest = matching(present(regex_group_one(field_condition_pattern(), where_clause)), fields);
    lemma_matching_is_filter(cols, fields);
    assert(update_fields(attr, where_clause, fields).take(first.len() as int) =~= first);
    if forall|i: int| 0 <= i < cols.len() ==> fields.contains(#[trigger] cols[i]) {
        lemma_matching_all(cols, fields);
        assert forall|i: int| 0 <= i < cols.len() implies
            #[trigger] update_fields(attr, where_clause, fields)[i] == cols[i] by {
            assert((first + rest)[i] == first[i]);
        }
    }
}

} // verus!
