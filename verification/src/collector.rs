//! A collector of outputs that also reads inputs: in an input, the text of
//! the output recorded at a path takes the place of the template `${path}`.
use vstd::prelude::*;
use vstd::string::*;
use crate::abi::{coerce, read_value};
use crate::canonical::{value_text, write_value};
use crate::errors::{fails_with, DeployerError, ErrorView};
use crate::indexer::{
    collect_outputs, entry_models, index_outputs, length_mismatch_message, lookup_entry,
    lemma_entry_models_joined, lemma_record_all_joined, param_models, record_all,
    tuple_expected_message, AbiParam, IndexEntry, Indexed,
};
use crate::jsonpath::{find_char, first_index_of, is_first_index};
use crate::types::{value_models, SolType, TypedValue, ValueModel};
use crate::variables::result_model;

verus! {

/// A template stands in `text` from `start` to `end`: `${` at `start`, the
/// next `}` at `end`, and at least one character between them.
pub open spec fn is_template_at(text: Seq<char>, start: int, end: int) -> bool {
    &&& 0 <= start
    &&& start + 2 < end < text.len()
    &&& text[start] == '$'
    &&& text[start + 1] == '{'
    &&& text[end] == '}'
    &&& forall|k: int| start + 2 <= k < end ==> text[k] != '}'
}

/// The template from `start` to `end` is the first of `text`.
pub open spec fn is_first_template(text: Seq<char>, start: int, end: int) -> bool {
    &&& is_template_at(text, start, end)
    &&& forall|earlier: int, other: int| earlier < start ==> !is_template_at(text, earlier, other)
}

/// The path that the first template of `text` names; `None` for a text
/// without a template.
pub open spec fn template_key(text: Seq<char>) -> Option<Seq<char>> {
    if exists|start: int, end: int| is_first_template(text, start, end) {
        let (start, end) = choose|start: int, end: int| is_first_template(text, start, end);
        Some(text.subrange(start + 2, end))
    } else {
        None
    }
}

/// The text with `by` in the place of its first template; the text itself
/// where it holds no template.
pub open spec fn with_template_replaced(text: Seq<char>, by: Seq<char>) -> Seq<char> {
    if exists|start: int, end: int| is_first_template(text, start, end) {
        let (start, end) = choose|start: int, end: int| is_first_template(text, start, end);
        text.subrange(0, start) + by + text.subrange(end + 1, text.len() as int)
    } else {
        text
    }
}

proof fn lemma_template_end_is_unique(text: Seq<char>, start: int, end: int, other: int)
    requires
        is_template_at(text, start, end),
        is_template_at(text, start, other),
    ensures
        end == other,
{
    if end < other {
        assert(text[end] != '}');
    }
    if other < end {
        assert(text[other] != '}');
    }
}

proof fn lemma_first_template_is_unique(text: Seq<char>, start: int, end: int)
    requires
        is_first_template(text, start, end),
    ensures
        template_key(text) == Some(text.subrange(start + 2, end)),
        forall|by: Seq<char>| #[trigger]
            with_template_replaced(text, by) == text.subrange(0, start) + by + text.subrange(
                end + 1,
                text.len() as int,
            ),
{
    let (s, e) = choose|s: int, e: int| is_first_template(text, s, e);
    if s < start {
        assert(!is_template_at(text, s, e));
    }
    if start < s {
        assert(!is_template_at(text, start, end));
    }
    lemma_template_end_is_unique(text, start, end, e);
}

/// Finds where the first template of the text starts and where it ends.
fn find_template_span(text: &str) -> (span: Option<(usize, usize)>)
    ensures
        match span {
            Some((start, end)) => is_first_template(text@, start as int, end as int),
            None => forall|start: int, end: int| !is_first_template(text@, start, end),
        },
{
    let n = text.unicode_len();
    let mut i: usize = 0;
    while i < n
        invariant
            i <= n,
            n == text@.len(),
            forall|earlier: int, other: int| earlier < i ==> !is_template_at(text@, earlier, other),
        decreases n - i,
    {
        if n - i >= 3 && text.get_char(i) == '$' && text.get_char(i + 1) == '{' {
            let ghost rest = text@.subrange(i + 2, n as int);
            match find_char(text, i + 2, n, '}') {
                Some(closing) => {
                    proof {
                        let at = closing - (i + 2);
                        assert(first_index_of(rest, '}') == Some(at as int));
                        assert(is_first_index(rest, '}', at as int));
                        assert(text@[closing as int] == rest[at as int]);
                        assert forall|k: int| i + 2 <= k < closing implies text@[k] != '}' by {
                            assert(rest[k - (i + 2)] != '}');
                        }
                    }
                    if closing > i + 2 {
                        assert(is_template_at(text@, i as int, closing as int));
                        return Some((i, closing));
                    }
                    proof {
                        assert forall|other: int| !is_template_at(text@, i as int, other) by {
                            if is_template_at(text@, i as int, other) {
                                assert(text@[i + 2] != '}');
                            }
                        }
                    }
                },
                None => {
                    proof {
                        assert forall|other: int| !is_template_at(text@, i as int, other) by {
                            if is_template_at(text@, i as int, other) {
                                assert(rest[other - (i + 2)] == '}');
                                assert forall|k: int| 0 <= k < other - (i + 2) implies rest[k]
                                    != '}' by {
                                    assert(text@[k + i + 2] != '}');
                                }
                                assert(is_first_index(rest, '}', other - (i + 2)));
                            }
                        }
                    }
                },
            }
        }
        proof {
            assert forall|earlier: int, other: int| earlier < i + 1 implies !is_template_at(
                text@,
                earlier,
                other,
            ) by {
                if earlier == i && is_template_at(text@, earlier, other) {
                    assert(n - i >= 3);
                }
            }
        }
        i += 1;
    }
    assert forall|start: int, end: int| !is_first_template(text@, start, end) by {
        if is_first_template(text@, start, end) {
            assert(is_template_at(text@, start, end));
        }
    }
    None
}

/// Finds the path that the first template of the text names.
pub fn find_template(text: &str) -> (key: Option<String>)
    ensures
        match template_key(text@) {
            Some(path) => key matches Some(found) && found@ == path,
            None => key is None,
        },
{
    match find_template_span(text) {
        Some((start, end)) => {
            proof {
                lemma_first_template_is_unique(text@, start as int, end as int);
            }
            Some(String::from_str(text.substring_char(start + 2, end)))
        },
        None => None,
    }
}

/// Puts `by` in the place of the first template of the text, and copies a
/// text without a template.
pub fn replace_template(text: &str, by: &str) -> (written: String)
    ensures
        written@ == with_template_replaced(text@, by@),
{
    match find_template_span(text) {
        Some((start, end)) => {
            proof {
                lemma_first_template_is_unique(text@, start as int, end as int);
            }
            let n = text.unicode_len();
            String::from_str(text.substring_char(0, start)).concat(by).concat(
                text.substring_char(end + 1, n),
            )
        },
        None => String::from_str(text),
    }
}

/// What an input stands for. The text of the output at the path that the
/// first template names takes the place of that template, and what is then
/// written is read as a value of the expected type; a text without a
/// template is read as it is. A template whose path holds nothing fails
/// with `OutputNotFound`, and a text that is no value of the expected type
/// with `TypeConversion`.
pub open spec fn input_value(
    outputs: Map<Seq<char>, Indexed>,
    text: Seq<char>,
    ty: Seq<char>,
) -> Result<ValueModel, ErrorView> {
    match template_key(text) {
        Some(path) => if outputs.contains_key(path) {
            read_as(ty, with_template_replaced(text, value_text(outputs[path].value)))
        } else {
            Err(ErrorView::OutputNotFound(path))
        },
        None => read_as(ty, text),
    }
}

/// The text read as a value of the type, or the `TypeConversion` that tells
/// of both.
pub open spec fn read_as(ty: Seq<char>, text: Seq<char>) -> Result<ValueModel, ErrorView> {
    match read_value(ty, text) {
        Some(value) => Ok(value),
        None => Err(ErrorView::TypeConversion { expected: ty, actual: text }),
    }
}

/// Collects the outputs of actions, by path.
#[derive(Debug, PartialEq, Eq)]
pub struct OutputCollector {
    output_data: Vec<IndexEntry>,
}

impl OutputCollector {
    /// The collected outputs, by path.
    pub closed spec fn outputs(&self) -> Map<Seq<char>, Indexed> {
        record_all(Map::empty(), entry_models(self.output_data@))
    }

    /// A collector without outputs.
    pub fn new() -> (collector: OutputCollector)
        ensures
            collector.outputs() == Map::<Seq<char>, Indexed>::empty(),
    {
        let collector = OutputCollector { output_data: Vec::new() };
        assert(entry_models(collector.output_data@) =~= Seq::<crate::indexer::IndexedValue>::empty());
        collector
    }

    /// Collects the outputs of the action `id`, each taken apart by its
    /// parameter. Fails with `Execution`, and collects nothing, where the
    /// outputs do not match the parameters in number, and where a parameter
    /// with components meets a value that is no tuple.
    pub fn save_output_data(
        &mut self,
        id: String,
        output_definitions: Vec<AbiParam>,
        outputs: Vec<TypedValue>,
    ) -> (result: Result<(), DeployerError>)
        ensures
            output_definitions@.len() != outputs@.len() ==> ({
                &&& final(self).outputs() == old(self).outputs()
                &&& fails_with(result, ErrorView::Execution(length_mismatch_message()))
            }),
            output_definitions@.len() == outputs@.len() ==> match index_outputs(
                id@,
                param_models(output_definitions@),
                value_models(outputs@),
                outputs@.len(),
            ) {
                Some(entries) => result is Ok && final(self).outputs() == record_all(
                    old(self).outputs(),
                    entries,
                ),
                None => final(self).outputs() == old(self).outputs() && fails_with(
                    result,
                    ErrorView::Execution(tuple_expected_message()),
                ),
            },
    {
        if output_definitions.len() != outputs.len() {
            return Err(DeployerError::Execution(String::from_str("length mismatch")));
        }
        match collect_outputs(id.as_str(), &output_definitions, &outputs) {
            Some(mut list) => {
                let ghost before = self.output_data@;
                let ghost added = list@;
                self.output_data.append(&mut list);
                proof {
                    lemma_entry_models_joined(before, added);
                    lemma_record_all_joined(
                        Map::empty(),
                        entry_models(before),
                        entry_models(added),
                    );
                }
                Ok(())
            },
            None => Err(DeployerError::Execution(String::from_str("Expected tuple for components"))),
        }
    }

    /// Reads an input. Where the text holds a template `${path}`, the text
    /// of the output collected at that path takes the place of the first
    /// such template, and what is then written is read as a value of
    /// `input_type`; any other text is read as it is. Fails with
    /// `OutputNotFound` where the path of the template holds nothing, and
    /// with `TypeConversion` where the text is no value of `input_type`.
    pub fn get_input_value(&self, input_str: &str, input_type: SolType) -> (result: Result<
        TypedValue,
        DeployerError,
    >)
        ensures
            result_model(result) == input_value(self.outputs(), input_str@, input_type@),
    {
        match find_template(input_str) {
            Some(path) => match lookup_entry(&self.output_data, path.as_str()) {
                Some(value) => {
                    let written = replace_template(input_str, write_value(&value).as_str());
                    coerce(&input_type, written.as_str())
                },
                None => Err(DeployerError::OutputNotFound(path)),
            },
            None => coerce(&input_type, input_str),
        }
    }
}

} // verus!
