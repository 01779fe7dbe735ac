//! What mangling promises: words are hidden, texts come back, and sessions do not disturb each
//! other.

use vstd::prelude::*;

use crate::config::{MangleConfigView, MangleMappingView};
use crate::json::JsonValueView;
use crate::mangle::{self, MangleSessionConfigView};
use crate::message::{ContentBlock, Message};
use crate::replace;

verus! {

/// Whether each mapping, at the point at which it is applied, brings its replacement about only
/// where it writes it.
pub open spec fn restorable_throughout(text: Seq<char>, mappings: Seq<MangleMappingView>) -> bool {
    forall|k: int|
        0 <= k < mappings.len() && mangle::active(mappings[k]) ==> #[trigger] step_restorable(
            text,
            mappings,
            k,
        )
}

/// Whether applying mapping `k` to the text that the mappings before it leave can be undone.
pub open spec fn step_restorable(text: Seq<char>, mappings: Seq<MangleMappingView>, k: int) -> bool {
    replace::restorable(
        mangle::mangled(text, mappings.take(k)),
        mappings[k].sensitive,
        mappings[k].replacement,
    )
}

/// Applying the mappings from `k` on to what the first `k` leave gives what all of them leave.
proof fn lemma_mangled_take(text: Seq<char>, mappings: Seq<MangleMappingView>, k: int)
    requires
        0 <= k < mappings.len(),
    ensures
        mangle::mangled(text, mappings.take(k + 1)) == mangle::applied(
            mangle::mangled(text, mappings.take(k)),
            mappings[k],
        ),
{
    assert(mappings.take(k + 1).drop_last() =~= mappings.take(k));
}

/// The first mapping of a list is the last one to be undone.
proof fn lemma_demangled_first(text: Seq<char>, mappings: Seq<MangleMappingView>)
    requires
        mappings.len() > 0,
    ensures
        mangle::demangled(text, mappings) == mangle::undone(
            mangle::demangled(text, mappings.skip(1)),
            mappings[0],
        ),
    decreases mappings.len(),
{
    let rest = mappings.skip(1);
    if mappings.len() == 1 {
        reveal_with_fuel(mangle::demangled, 2);
        assert(mappings.drop_last() =~= Seq::empty());
        assert(rest =~= Seq::empty());
    } else {
        assert(rest.last() == mappings.last());
        assert(rest.drop_last() =~= mappings.drop_last().skip(1));
        lemma_demangled_first(mangle::undone(text, mappings.last()), mappings.drop_last());
    }
}

/// The first mapping of a list is the first one to be applied.
proof fn lemma_mangled_first(text: Seq<char>, mappings: Seq<MangleMappingView>)
    requires
        mappings.len() > 0,
    ensures
        mangle::mangled(text, mappings) == mangle::mangled(
            mangle::applied(text, mappings[0]),
            mappings.skip(1),
        ),
    decreases mappings.len(),
{
    let rest = mappings.skip(1);
    if mappings.len() == 1 {
        reveal_with_fuel(mangle::mangled, 2);
        assert(mappings.drop_last() =~= Seq::empty());
        assert(rest =~= Seq::empty());
    } else {
        assert(rest.last() == mappings.last());
        assert(rest.drop_last() =~= mappings.drop_last().skip(1));
        lemma_mangled_first(text, mappings.drop_last());
    }
}

/// Undoing the mappings from `k` on is undoing those from `k + 1` on, and then mapping `k`.
proof fn lemma_demangled_skip(text: Seq<char>, mappings: Seq<MangleMappingView>, k: int)
    requires
        0 <= k < mappings.len(),
    ensures
        mangle::demangled(text, mappings.skip(k)) == mangle::undone(
            mangle::demangled(text, mappings.skip(k + 1)),
            mappings[k],
        ),
{
    lemma_demangled_first(text, mappings.skip(k));
    assert(mappings.skip(k).skip(1) =~= mappings.skip(k + 1));
}

/// Undoing one mapping right after applying it gives the text back, if the mapping is passed
/// over or its replacement came about nowhere else; and only then.
proof fn lemma_step(text: Seq<char>, mapping: MangleMappingView)
    ensures
        mangle::undone(mangle::applied(text, mapping), mapping) == text <==> (
        mangle::active(mapping) ==> replace::restorable(
            text,
            mapping.sensitive,
            mapping.replacement,
        )),
{
    if mangle::active(mapping) {
        replace::law_undone_iff_restorable(text, mapping.sensitive, mapping.replacement);
    }
}

/// Every text that stood between two mappings on the way out stands there again on the way back,
/// exactly when each mapping brings its replacement about only where it writes it.
pub proof fn law_every_stage_comes_back(text: Seq<char>, mappings: Seq<MangleMappingView>)
    ensures
        (forall|k: int|
            0 <= k <= mappings.len() ==> #[trigger] stage_comes_back(text, mappings, k))
            <==> restorable_throughout(text, mappings),
{
    if forall|k: int| 0 <= k <= mappings.len() ==> #[trigger] stage_comes_back(text, mappings, k) {
        assert forall|k: int|
            0 <= k < mappings.len() && mangle::active(
                mappings[k],
            ) implies #[trigger] step_restorable(text, mappings, k) by {
            assert(stage_comes_back(text, mappings, k));
            assert(stage_comes_back(text, mappings, k + 1));
            lemma_demangled_skip(mangle::mangled(text, mappings), mappings, k);
            lemma_mangled_take(text, mappings, k);
            lemma_step(mangle::mangled(text, mappings.take(k)), mappings[k]);
        }
    }
    if restorable_throughout(text, mappings) {
        assert forall|k: int| 0 <= k <= mappings.len() implies #[trigger] stage_comes_back(
            text,
            mappings,
            k,
        ) by {
            lemma_stage(text, mappings, k);
        }
    }
}

/// Whether undoing the mappings from `k` on gives the text that the first `k` had left.
pub open spec fn stage_comes_back(text: Seq<char>, mappings: Seq<MangleMappingView>, k: int) -> bool {
    mangle::demangled(mangle::mangled(text, mappings), mappings.skip(k))
        == mangle::mangled(text, mappings.take(k))
}

proof fn lemma_stage(text: Seq<char>, mappings: Seq<MangleMappingView>, k: int)
    requires
        restorable_throughout(text, mappings),
        0 <= k <= mappings.len(),
    ensures
        stage_comes_back(text, mappings, k),
    decreases mappings.len() - k,
{
    if k == mappings.len() {
        assert(mappings.skip(k) =~= Seq::empty());
        assert(mappings.take(k) =~= mappings);
    } else {
        lemma_stage(text, mappings, k + 1);
        lemma_demangled_skip(mangle::mangled(text, mappings), mappings, k);
        lemma_mangled_take(text, mappings, k);
        if mangle::active(mappings[k]) {
            assert(step_restorable(text, mappings, k));
        }
        lemma_step(mangle::mangled(text, mappings.take(k)), mappings[k]);
    }
}

/// Demangling restores a mangled text, if each mapping brings its replacement about only where
/// it writes it.
pub proof fn law_round_trip(text: Seq<char>, mappings: Seq<MangleMappingView>)
    requires
        restorable_throughout(text, mappings),
    ensures
        mangle::demangled(mangle::mangled(text, mappings), mappings) == text,
{
    lemma_stage(text, mappings, 0);
    assert(mappings.skip(0) =~= mappings);
    assert(mappings.take(0) =~= Seq::empty());
}

/// Whether `back`, read from left to right, is `text` with some occurrences of `from` written as
/// `to`, and `to` begins nowhere else in it.
pub open spec fn leads_back(back: Seq<char>, text: Seq<char>, from: Seq<char>, to: Seq<char>) -> bool
    decreases back.len(),
{
    if back.len() == 0 {
        text.len() == 0
    } else if to.len() > 0 && replace::occurs_at(back, to, 0) {
        &&& replace::occurs_at(text, from, 0)
        &&& leads_back(back.skip(to.len() as int), text.skip(from.len() as int), from, to)
    } else {
        &&& text.len() > 0
        &&& back[0] == text[0]
        &&& leads_back(back.skip(1), text.skip(1), from, to)
    }
}

/// Whether the text comes back through the mappings: what the others bring back of the text with
/// the first mapping applied is that text, or another one that the first mapping leads back too.
pub open spec fn comes_back(text: Seq<char>, mappings: Seq<MangleMappingView>) -> bool {
    mappings.len() > 0 ==> {
        let rest = mappings.skip(1);
        let sent = mangle::applied(text, mappings[0]);
        let back = mangle::demangled(mangle::mangled(sent, rest), rest);
        if mangle::active(mappings[0]) {
            leads_back(back, text, mappings[0].sensitive, mappings[0].replacement)
        } else {
            back == text
        }
    }
}

proof fn lemma_leads_back(back: Seq<char>, text: Seq<char>, from: Seq<char>, to: Seq<char>)
    requires
        to.len() > 0,
    ensures
        replace::replaced(back, to, from) == text <==> leads_back(back, text, from, to),
    decreases back.len(),
{
    let result = replace::replaced(back, to, from);
    if back.len() == 0 {
        assert(text.len() == 0 ==> text =~= Seq::empty());
    } else if replace::occurs_at(back, to, 0) {
        let tail = replace::replaced(back.skip(to.len() as int), to, from);
        lemma_leads_back(back.skip(to.len() as int), text.skip(from.len() as int), from, to);
        assert(result == from + tail);
        assert(result.skip(from.len() as int) =~= tail);
        if replace::occurs_at(text, from, 0) {
            assert(text =~= from + text.skip(from.len() as int)) by {
                assert forall|i: int| 0 <= i < from.len() implies text[i] == from[i] by {
                    assert(text[0 + i] == from[i]);
                }
            }
        } else {
            assert(replace::occurs_at(result, from, 0)) by {
                assert forall|i: int| 0 <= i < from.len() implies #[trigger] result[0 + i]
                    == from[i] by {}
            }
        }
    } else {
        let tail = replace::replaced(back.skip(1), to, from);
        lemma_leads_back(back.skip(1), text.skip(1), from, to);
        assert(result == seq![back[0]] + tail);
        assert(result.skip(1) =~= tail);
        assert(result[0] == back[0]);
        if text.len() > 0 {
            assert(text =~= seq![text[0]] + text.skip(1));
        }
    }
}

/// For any text and any mappings, demangling restores the mangled text exactly when the text
/// comes back through the mappings.
pub proof fn law_restored_iff_comes_back(text: Seq<char>, mappings: Seq<MangleMappingView>)
    ensures
        mangle::demangled(mangle::mangled(text, mappings), mappings) == text
            <==> comes_back(text, mappings),
{
    if mappings.len() > 0 {
        let rest = mappings.skip(1);
        let sent = mangle::applied(text, mappings[0]);
        lemma_mangled_first(text, mappings);
        lemma_demangled_first(mangle::mangled(text, mappings), mappings);
        if mangle::active(mappings[0]) {
            lemma_leads_back(
                mangle::demangled(mangle::mangled(sent, rest), rest),
                text,
                mappings[0].sensitive,
                mappings[0].replacement,
            );
        }
    }
}

/// Whether replacements can be told apart: no two of them can overlap in a text, and none can
/// overlap with itself.
pub open spec fn distinct_replacements(mappings: Seq<MangleMappingView>) -> bool {
    &&& forall|j: int|
        0 <= j < mappings.len() && mangle::active(mappings[j])
            ==> replace::self_avoiding(#[trigger] mappings[j].replacement)
    &&& forall|j: int, k: int|
        0 <= j < k < mappings.len() && mangle::active(mappings[j]) && mangle::active(
            mappings[k],
        ) ==> replace::clash(
            #[trigger] mappings[k].replacement,
            #[trigger] mappings[j].replacement,
        )
}

/// A text that holds none of the replacements comes back, whatever it holds besides, if the
/// replacements can be told apart.
pub proof fn law_round_trip_of_fresh_replacements(
    text: Seq<char>,
    mappings: Seq<MangleMappingView>,
)
    requires
        distinct_replacements(mappings),
        forall|k: int|
            0 <= k < mappings.len() && mangle::active(mappings[k])
                ==> !replace::contains_word(text, #[trigger] mappings[k].replacement),
    ensures
        mangle::demangled(mangle::mangled(text, mappings), mappings) == text,
{
    assert forall|k: int|
        0 <= k < mappings.len() && mangle::active(
            mappings[k],
        ) implies #[trigger] step_restorable(text, mappings, k) by {
        lemma_stays_fresh(text, mappings, k, k);
        replace::law_fresh_replacement_is_restorable(
            mangle::mangled(text, mappings.take(k)),
            mappings[k].sensitive,
            mappings[k].replacement,
        );
    }
    law_round_trip(text, mappings);
}

proof fn lemma_stays_fresh(text: Seq<char>, mappings: Seq<MangleMappingView>, k: int, n: int)
    requires
        distinct_replacements(mappings),
        0 <= n <= k < mappings.len(),
        mangle::active(mappings[k]),
        !replace::contains_word(text, mappings[k].replacement),
    ensures
        !replace::contains_word(
            mangle::mangled(text, mappings.take(n)),
            mappings[k].replacement,
        ),
    decreases n,
{
    if n == 0 {
        assert(mappings.take(0) =~= Seq::empty());
    } else {
        lemma_stays_fresh(text, mappings, k, n - 1);
        lemma_mangled_take(text, mappings, n - 1);
        if mangle::active(mappings[n - 1]) {
            replace::law_clashing_word_stays_absent(
                mangle::mangled(text, mappings.take(n - 1)),
                mappings[n - 1].sensitive,
                mappings[n - 1].replacement,
                mappings[k].replacement,
            );
        }
    }
}

/// Whether mapping `k` brings `word` about: in the text that it leaves, `word` stands somewhere
/// with a character that the mapping wrote.
pub open spec fn brought_about_by(
    text: Seq<char>,
    mappings: Seq<MangleMappingView>,
    k: int,
    word: Seq<char>,
) -> bool {
    exists|at: int, q: int|
        {
            &&& #[trigger] replace::occurs_at(mangle::mangled(text, mappings.take(k + 1)), word, at)
            &&& at <= q < at + word.len()
            &&& #[trigger] replace::written(
                mangle::mangled(text, mappings.take(k)),
                mappings[k].sensitive,
                mappings[k].replacement,
            )[q]
        }
}

/// For any text and any mappings, the sensitive word of a mapping is gone from the mangled text,
/// unless that mapping or one after it brings the word about by what it writes.
pub proof fn law_hidden_unless_written(text: Seq<char>, mappings: Seq<MangleMappingView>, j: int)
    requires
        0 <= j < mappings.len(),
        mangle::active(mappings[j]),
    ensures
        replace::contains_word(mangle::mangled(text, mappings), mappings[j].sensitive)
            ==> exists|k: int|
            j <= k < mappings.len() && mangle::active(mappings[k]) && #[trigger] brought_about_by(
                text,
                mappings,
                k,
                mappings[j].sensitive,
            ),
{
    if forall|k: int|
        j <= k < mappings.len() && mangle::active(mappings[k]) ==> !#[trigger] brought_about_by(
            text,
            mappings,
            k,
            mappings[j].sensitive,
        ) {
        lemma_stays_hidden(text, mappings, j, mappings.len() as int);
        assert(mappings.take(mappings.len() as int) =~= mappings);
    }
}

proof fn lemma_stays_hidden(text: Seq<char>, mappings: Seq<MangleMappingView>, j: int, n: int)
    requires
        0 <= j < n <= mappings.len(),
        mangle::active(mappings[j]),
        forall|k: int|
            j <= k < mappings.len() && mangle::active(mappings[k]) ==> !#[trigger] brought_about_by(
                text,
                mappings,
                k,
                mappings[j].sensitive,
            ),
    ensures
        !replace::contains_word(
            mangle::mangled(text, mappings.take(n)),
            mappings[j].sensitive,
        ),
    decreases n,
{
    let word = mappings[j].sensitive;
    let k = n - 1;
    let before = mangle::mangled(text, mappings.take(k));
    let after = mangle::mangled(text, mappings.take(n));
    lemma_mangled_take(text, mappings, k);
    if k > j {
        lemma_stays_hidden(text, mappings, j, k);
    }
    if replace::contains_word(after, word) && mangle::active(mappings[k]) {
        let at = choose|at: int| replace::occurs_at(after, word, at);
        assert(!brought_about_by(text, mappings, k, word));
        assert forall|q: int| at <= q < at + word.len() implies !#[trigger] replace::written(
            before,
            mappings[k].sensitive,
            mappings[k].replacement,
        )[q] by {
            assert(replace::occurs_at(mangle::mangled(text, mappings.take(k + 1)), word, at));
        }
        replace::law_untouched_word_was_there(
            before,
            mappings[k].sensitive,
            mappings[k].replacement,
            word,
            at,
        );
    }
}

/// Whether no sensitive word can overlap in a text with its own replacement or with one that is
/// written after it.
pub open spec fn hiding(mappings: Seq<MangleMappingView>) -> bool {
    forall|j: int, k: int|
        0 <= j <= k < mappings.len() && mangle::active(mappings[j]) && mangle::active(
            mappings[k],
        ) ==> replace::clash(
            #[trigger] mappings[j].sensitive,
            #[trigger] mappings[k].replacement,
        )
}

/// No sensitive word is left in a mangled text, if the mappings are hiding.
pub proof fn law_sensitive_words_are_hidden(text: Seq<char>, mappings: Seq<MangleMappingView>)
    requires
        hiding(mappings),
    ensures
        forall|j: int|
            0 <= j < mappings.len() && mangle::active(mappings[j])
                ==> !replace::contains_word(
                mangle::mangled(text, mappings),
                #[trigger] mappings[j].sensitive,
            ),
    decreases mappings.len(),
{
    if mappings.len() > 0 {
        let front = mappings.drop_last();
        let last = mappings.last();
        let before = mangle::mangled(text, front);
        assert(hiding(front)) by {
            assert forall|j: int, k: int|
                0 <= j <= k < front.len() && mangle::active(front[j])
                    && mangle::active(front[k]) implies replace::clash(
                #[trigger] front[j].sensitive,
                #[trigger] front[k].replacement,
            ) by {
                assert(replace::clash(mappings[j].sensitive, mappings[k].replacement));
            }
        }
        law_sensitive_words_are_hidden(text, front);
        assert forall|j: int|
            0 <= j < mappings.len() && mangle::active(
                mappings[j],
            ) implies !replace::contains_word(
            mangle::mangled(text, mappings),
            #[trigger] mappings[j].sensitive,
        ) by {
            if j < front.len() {
                assert(!replace::contains_word(before, front[j].sensitive));
            }
            if mangle::active(last) {
                assert(replace::clash(
                    mappings[j].sensitive,
                    mappings[mappings.len() - 1].replacement,
                ));
                replace::law_clashing_word_stays_absent(
                    before,
                    last.sensitive,
                    last.replacement,
                    mappings[j].sensitive,
                );
            }
        }
    }
}

/// Whether `word` stands in some string of a JSON value.
pub open spec fn holds_word(value: JsonValueView, word: Seq<char>) -> bool
    decreases value,
{
    match value {
        JsonValueView::Text(text) => replace::contains_word(text, word),
        JsonValueView::List(items) => exists|i: int|
            0 <= i < items.len() && holds_word(#[trigger] items[i], word),
        JsonValueView::Object(members) => exists|i: int|
            0 <= i < members.len() && holds_word((#[trigger] members[i]).1, word),
        _ => false,
    }
}

/// No sensitive word is left in any string of a mangled JSON value, however deep it stands, if
/// mangling is on for the session and the mappings in force are hiding.
pub proof fn law_sensitive_words_are_hidden_in_values(
    configs: Map<Seq<char>, MangleSessionConfigView>,
    file: MangleConfigView,
    session_id: Seq<char>,
    value: JsonValueView,
    j: int,
)
    requires
        mangle::enabled_for(configs, file, session_id),
        hiding(mangle::mappings_for(configs, file, session_id)),
        0 <= j < mangle::mappings_for(configs, file, session_id).len(),
        mangle::active(mangle::mappings_for(configs, file, session_id)[j]),
    ensures
        !holds_word(
            mangle::mangled_value_for(configs, file, session_id, value),
            mangle::mappings_for(configs, file, session_id)[j].sensitive,
        ),
    decreases value,
{
    let mappings = mangle::mappings_for(configs, file, session_id);
    let word = mappings[j].sensitive;
    let after = mangle::mangled_value_for(configs, file, session_id, value);
    match value {
        JsonValueView::Text(text) => {
            law_sensitive_words_are_hidden(text, mappings);
            assert(after == JsonValueView::Text(mangle::mangled(text, mappings)));
            assert(!replace::contains_word(after->Text_0, mappings[j].sensitive));
        },
        JsonValueView::List(items) => {
            assert forall|i: int| 0 <= i < items.len() implies !holds_word(
                #[trigger] after->List_0[i],
                word,
            ) by {
                law_sensitive_words_are_hidden_in_values(configs, file, session_id, items[i], j);
            }
        },
        JsonValueView::Object(members) => {
            assert forall|i: int| 0 <= i < members.len() implies !holds_word(
                (#[trigger] after->Object_0[i]).1,
                word,
            ) by {
                law_sensitive_words_are_hidden_in_values(
                    configs,
                    file,
                    session_id,
                    members[i].1,
                    j,
                );
            }
        },
        _ => {},
    }
}

/// No sensitive word is left in the arguments of a tool call, whether they come as one string or
/// as any other JSON value, if mangling is on for the session and the mappings in force are
/// hiding.
pub proof fn law_sensitive_words_are_hidden_in_arguments(
    configs: Map<Seq<char>, MangleSessionConfigView>,
    file: MangleConfigView,
    session_id: Seq<char>,
    input: JsonValueView,
    j: int,
)
    requires
        mangle::enabled_for(configs, file, session_id),
        hiding(mangle::mappings_for(configs, file, session_id)),
        0 <= j < mangle::mappings_for(configs, file, session_id).len(),
        mangle::active(mangle::mappings_for(configs, file, session_id)[j]),
    ensures
        !holds_word(
            mangle::mangled_input_for(configs, file, session_id, input),
            mangle::mappings_for(configs, file, session_id)[j].sensitive,
        ),
{
    let mappings = mangle::mappings_for(configs, file, session_id);
    match input {
        JsonValueView::Text(before) => {
            let text = mangle::mangled_for(configs, file, session_id, before);
            match crate::json::json_document(text) {
                Ok(value) => {
                    law_sensitive_words_are_hidden_in_values(configs, file, session_id, value, j);
                },
                Err(_) => {
                    law_sensitive_words_are_hidden(before, mappings);
                    assert(!replace::contains_word(text, mappings[j].sensitive));
                },
            }
        },
        _ => {
            law_sensitive_words_are_hidden_in_values(configs, file, session_id, input, j);
        },
    }
}

/// Whether `word` stands in the text content of a block. Images and blocks of one provider alone
/// have none.
pub open spec fn block_holds_word(block: ContentBlock, word: Seq<char>) -> bool {
    match block {
        ContentBlock::Text { text, .. } => replace::contains_word(text@, word),
        ContentBlock::Reasoning { text } => replace::contains_word(text@, word),
        ContentBlock::ReasoningTrace { text } => replace::contains_word(text@, word),
        ContentBlock::AnthropicThinking { thinking, .. } => replace::contains_word(thinking@, word),
        ContentBlock::ToolUse { input, .. } => holds_word(input@, word),
        ContentBlock::ToolResult { content, .. } => replace::contains_word(content@, word),
        _ => false,
    }
}

/// No sensitive word is left in the text content of any block of a mangled message, if mangling
/// is on for the session and the mappings in force are hiding.
pub proof fn law_sensitive_words_are_hidden_in_messages(
    configs: Map<Seq<char>, MangleSessionConfigView>,
    file: MangleConfigView,
    session_id: Seq<char>,
    before: Message,
    after: Message,
    j: int,
)
    requires
        mangle::enabled_for(configs, file, session_id),
        hiding(mangle::mappings_for(configs, file, session_id)),
        0 <= j < mangle::mappings_for(configs, file, session_id).len(),
        mangle::active(mangle::mappings_for(configs, file, session_id)[j]),
        mangle::message_mangled_for(configs, file, session_id, before, after),
    ensures
        forall|i: int|
            0 <= i < after.content.len() ==> !block_holds_word(
                #[trigger] after.content[i],
                mangle::mappings_for(configs, file, session_id)[j].sensitive,
            ),
{
    assert forall|i: int| 0 <= i < after.content.len() implies !block_holds_word(
        #[trigger] after.content[i],
        mangle::mappings_for(configs, file, session_id)[j].sensitive,
    ) by {
        lemma_hidden_in_block(
            configs,
            file,
            session_id,
            before.content[i],
            after.content[i],
            j,
        );
    }
}

proof fn lemma_hidden_in_block(
    configs: Map<Seq<char>, MangleSessionConfigView>,
    file: MangleConfigView,
    session_id: Seq<char>,
    before: ContentBlock,
    after: ContentBlock,
    j: int,
)
    requires
        mangle::enabled_for(configs, file, session_id),
        hiding(mangle::mappings_for(configs, file, session_id)),
        0 <= j < mangle::mappings_for(configs, file, session_id).len(),
        mangle::active(mangle::mappings_for(configs, file, session_id)[j]),
        mangle::block_mangled_for(configs, file, session_id, before, after),
    ensures
        !block_holds_word(after, mangle::mappings_for(configs, file, session_id)[j].sensitive),
{
    let mappings = mangle::mappings_for(configs, file, session_id);
    match before {
        ContentBlock::Text { text, .. } => {
            law_sensitive_words_are_hidden(text@, mappings);
            assert(!replace::contains_word(mangle::mangled(text@, mappings), mappings[j].sensitive));
        },
        ContentBlock::Reasoning { text } => {
            law_sensitive_words_are_hidden(text@, mappings);
            assert(!replace::contains_word(mangle::mangled(text@, mappings), mappings[j].sensitive));
        },
        ContentBlock::ReasoningTrace { text } => {
            law_sensitive_words_are_hidden(text@, mappings);
            assert(!replace::contains_word(mangle::mangled(text@, mappings), mappings[j].sensitive));
        },
        ContentBlock::AnthropicThinking { thinking, .. } => {
            law_sensitive_words_are_hidden(thinking@, mappings);
            assert(!replace::contains_word(
                mangle::mangled(thinking@, mappings),
                mappings[j].sensitive,
            ));
        },
        ContentBlock::ToolUse { input, .. } => {
            law_sensitive_words_are_hidden_in_arguments(configs, file, session_id, input@, j);
        },
        ContentBlock::ToolResult { content, .. } => {
            law_sensitive_words_are_hidden(content@, mappings);
            assert(!replace::contains_word(
                mangle::mangled(content@, mappings),
                mappings[j].sensitive,
            ));
        },
        _ => {},
    }
}

/// A text without any sensitive word is sent as it is.
pub proof fn law_harmless_text_is_unchanged(text: Seq<char>, mappings: Seq<MangleMappingView>)
    requires
        forall|j: int|
            0 <= j < mappings.len() && mangle::active(mappings[j])
                ==> !replace::contains_word(text, #[trigger] mappings[j].sensitive),
    ensures
        mangle::mangled(text, mappings) == text,
    decreases mappings.len(),
{
    if mappings.len() > 0 {
        let front = mappings.drop_last();
        assert forall|j: int|
            0 <= j < front.len() && mangle::active(
                front[j],
            ) implies !replace::contains_word(text, #[trigger] front[j].sensitive) by {
            assert(!replace::contains_word(text, mappings[j].sensitive));
        }
        law_harmless_text_is_unchanged(text, front);
        if mangle::active(mappings.last()) {
            assert(!replace::contains_word(text, mappings[mappings.len() - 1].sensitive));
            replace::law_absent_word_changes_nothing(
                text,
                mappings.last().sensitive,
                mappings.last().replacement,
            );
        }
    }
}

/// A text without any replacement is received as it is.
pub proof fn law_plain_reply_is_unchanged(text: Seq<char>, mappings: Seq<MangleMappingView>)
    requires
        forall|j: int|
            0 <= j < mappings.len() && mangle::active(mappings[j])
                ==> !replace::contains_word(text, #[trigger] mappings[j].replacement),
    ensures
        mangle::demangled(text, mappings) == text,
    decreases mappings.len(),
{
    if mappings.len() > 0 {
        let front = mappings.drop_last();
        if mangle::active(mappings.last()) {
            assert(!replace::contains_word(text, mappings[mappings.len() - 1].replacement));
            replace::law_absent_word_changes_nothing(
                text,
                mappings.last().replacement,
                mappings.last().sensitive,
            );
        }
        assert forall|j: int|
            0 <= j < front.len() && mangle::active(
                front[j],
            ) implies !replace::contains_word(text, #[trigger] front[j].replacement) by {
            assert(!replace::contains_word(text, mappings[j].replacement));
        }
        law_plain_reply_is_unchanged(text, front);
    }
}

/// Mangling a mangled text again changes nothing, if the mappings are hiding.
pub proof fn law_mangling_twice(text: Seq<char>, mappings: Seq<MangleMappingView>)
    requires
        hiding(mappings),
    ensures
        mangle::mangled(mangle::mangled(text, mappings), mappings)
            == mangle::mangled(text, mappings),
{
    law_sensitive_words_are_hidden(text, mappings);
    law_harmless_text_is_unchanged(mangle::mangled(text, mappings), mappings);
}

/// What a session sends comes back to it: always if mangling is off for it, and else if each
/// mapping in force brings its replacement about only where it writes it.
pub proof fn law_session_round_trip(
    configs: Map<Seq<char>, MangleSessionConfigView>,
    file: MangleConfigView,
    session_id: Seq<char>,
    text: Seq<char>,
)
    requires
        mangle::enabled_for(configs, file, session_id) ==> restorable_throughout(
            text,
            mangle::mappings_for(configs, file, session_id),
        ),
    ensures
        mangle::demangled_for(
            configs,
            file,
            session_id,
            mangle::mangled_for(configs, file, session_id, text),
        ) == text,
{
    if mangle::enabled_for(configs, file, session_id) {
        law_round_trip(text, mangle::mappings_for(configs, file, session_id));
    }
}

/// An update decides what it mentions: the value given is in force, a value cleared is the
/// file's again, and what is not mentioned stays in force.
pub proof fn law_update_decides(
    configs: Map<Seq<char>, MangleSessionConfigView>,
    file: MangleConfigView,
    session_id: Seq<char>,
    enabled: Option<Option<bool>>,
    mappings: Option<Option<Seq<MangleMappingView>>>,
)
    ensures
        ({
            let after = configs.insert(
                session_id,
                mangle::updated_settings(
                    mangle::settings_of(configs, session_id),
                    enabled,
                    mappings,
                ),
            );
            &&& mangle::enabled_for(after, file, session_id) == match enabled {
                Some(Some(flag)) => flag,
                Some(None) => file.enabled,
                None => mangle::enabled_for(configs, file, session_id),
            }
            &&& mangle::mappings_for(after, file, session_id) == match mappings {
                Some(Some(list)) => list,
                Some(None) => file.mappings,
                None => mangle::mappings_for(configs, file, session_id),
            }
        }),
{
}

/// A session whose settings are forgotten is back to the file.
pub proof fn law_forgotten_session_follows_the_file(
    configs: Map<Seq<char>, MangleSessionConfigView>,
    file: MangleConfigView,
    session_id: Seq<char>,
)
    ensures
        mangle::enabled_for(configs.remove(session_id), file, session_id) == file.enabled,
        mangle::mappings_for(configs.remove(session_id), file, session_id) == file.mappings,
{
}

/// Recording or forgetting the settings of one session leaves the texts of all others as they
/// were.
pub proof fn law_sessions_are_independent(
    configs: Map<Seq<char>, MangleSessionConfigView>,
    file: MangleConfigView,
    session_id: Seq<char>,
    settings: MangleSessionConfigView,
    other: Seq<char>,
    text: Seq<char>,
)
    requires
        other != session_id,
    ensures
        mangle::mangled_for(configs.insert(session_id, settings), file, other, text)
            == mangle::mangled_for(configs, file, other, text),
        mangle::demangled_for(configs.insert(session_id, settings), file, other, text)
            == mangle::demangled_for(configs, file, other, text),
        mangle::mangled_for(configs.remove(session_id), file, other, text)
            == mangle::mangled_for(configs, file, other, text),
        mangle::demangled_for(configs.remove(session_id), file, other, text)
            == mangle::demangled_for(configs, file, other, text),
{
}

/// Mappings one after another: applying a list is applying its first part and then its second,
/// and undoing it is undoing its second part and then its first.
pub proof fn law_mappings_in_two(
    text: Seq<char>,
    first: Seq<MangleMappingView>,
    second: Seq<MangleMappingView>,
)
    ensures
        mangle::mangled(text, first + second) == mangle::mangled(
            mangle::mangled(text, first),
            second,
        ),
        mangle::demangled(text, first + second) == mangle::demangled(
            mangle::demangled(text, second),
            first,
        ),
    decreases second.len(),
{
    if second.len() == 0 {
        assert(first + second =~= first);
    } else {
        assert((first + second).drop_last() =~= first + second.drop_last());
        assert((first + second).last() == second.last());
        law_mappings_in_two(text, first, second.drop_last());
        law_mappings_in_two(mangle::undone(text, second.last()), first, second.drop_last());
    }
}

/// No mapping changes nothing, and neither does one with an empty side. Any other replaces its
/// sensitive word on the way out and its replacement on the way back.
pub proof fn law_one_mapping(text: Seq<char>, mapping: MangleMappingView)
    ensures
        mangle::mangled(text, Seq::empty()) == text,
        mangle::demangled(text, Seq::empty()) == text,
        mangle::active(mapping) <==> mapping.sensitive.len() > 0 && mapping.replacement.len() > 0,
        mangle::mangled(text, seq![mapping]) == if mapping.sensitive.len() > 0
            && mapping.replacement.len() > 0 {
            replace::replaced(text, mapping.sensitive, mapping.replacement)
        } else {
            text
        },
        mangle::demangled(text, seq![mapping]) == if mapping.sensitive.len() > 0
            && mapping.replacement.len() > 0 {
            replace::replaced(text, mapping.replacement, mapping.sensitive)
        } else {
            text
        },
{
    reveal_with_fuel(mangle::mangled, 2);
    reveal_with_fuel(mangle::demangled, 2);
    assert(seq![mapping].drop_last() =~= Seq::empty());
}

/// What a session has set decides for it, and the file decides what it has left open: whether
/// its texts are changed at all, and by which mappings.
pub proof fn law_texts_follow_the_settings(
    configs: Map<Seq<char>, MangleSessionConfigView>,
    file: MangleConfigView,
    session_id: Seq<char>,
    text: Seq<char>,
)
    ensures
        ({
            let enabled = if configs.contains_key(session_id) && configs[session_id].enabled is Some {
                configs[session_id].enabled->0
            } else {
                file.enabled
            };
            let mappings = if configs.contains_key(session_id)
                && configs[session_id].mappings is Some {
                configs[session_id].mappings->0
            } else {
                file.mappings
            };
            &&& mangle::enabled_for(configs, file, session_id) == enabled
            &&& mangle::mappings_for(configs, file, session_id) == mappings
            &&& mangle::mangled_for(configs, file, session_id, text) == if enabled {
                mangle::mangled(text, mappings)
            } else {
                text
            }
            &&& mangle::demangled_for(configs, file, session_id, text) == if enabled {
                mangle::demangled(text, mappings)
            } else {
                text
            }
        }),
{
}

/// The settings of a session are what is kept for it, an update changes the fields it mentions
/// and no others, and a session without settings starts with none of them set.
pub proof fn law_updates_keep_the_other_field(
    configs: Map<Seq<char>, MangleSessionConfigView>,
    session_id: Seq<char>,
    enabled: Option<Option<bool>>,
    mappings: Option<Option<Seq<MangleMappingView>>>,
)
    ensures
        mangle::unset().enabled is None && mangle::unset().mappings is None,
        configs.contains_key(session_id) ==> mangle::settings_of(configs, session_id) == Some(
            configs[session_id],
        ),
        !configs.contains_key(session_id) ==> mangle::settings_of(configs, session_id) is None,
        ({
            let after = mangle::updated_settings(
                mangle::settings_of(configs, session_id),
                enabled,
                mappings,
            );
            let known = configs.contains_key(session_id);
            &&& enabled is Some ==> after.enabled == enabled->0
            &&& enabled is None ==> after.enabled == if known {
                configs[session_id].enabled
            } else {
                None
            }
            &&& mappings is Some ==> after.mappings == mappings->0
            &&& mappings is None ==> after.mappings == if known {
                configs[session_id].mappings
            } else {
                None
            }
        }),
{
}

/// A mangled JSON value has the shape of the value before: a list of as many items, an object of
/// the same names in the same order, each with its value mangled; a string is mangled as a text,
/// and a number, a flag or a null is the same.
pub proof fn law_values_keep_their_shape(
    configs: Map<Seq<char>, MangleSessionConfigView>,
    file: MangleConfigView,
    session_id: Seq<char>,
    value: JsonValueView,
)
    ensures
        ({
            let after = mangle::mangled_value_for(configs, file, session_id, value);
            match value {
                JsonValueView::Text(text) => after matches JsonValueView::Text(t) && t
                    == mangle::mangled_for(configs, file, session_id, text),
                JsonValueView::List(items) => {
                    &&& after is List
                    &&& after->List_0.len() == items.len()
                    &&& forall|i: int|
                        0 <= i < items.len() ==> #[trigger] after->List_0[i]
                            == mangle::mangled_value_for(configs, file, session_id, items[i])
                },
                JsonValueView::Object(members) => {
                    &&& after is Object
                    &&& after->Object_0.len() == members.len()
                    &&& forall|i: int|
                        0 <= i < members.len() ==> (#[trigger] after->Object_0[i]).0
                            == members[i].0 && after->Object_0[i].1 == mangle::mangled_value_for(
                            configs,
                            file,
                            session_id,
                            members[i].1,
                        )
                },
                _ => after == value,
            }
        }),
{
}

/// A JSON value in which no sensitive word stands is sent as it is; and so is any value, if
/// mangling is off for the session.
pub proof fn law_harmless_value_is_unchanged(
    configs: Map<Seq<char>, MangleSessionConfigView>,
    file: MangleConfigView,
    session_id: Seq<char>,
    value: JsonValueView,
)
    requires
        mangle::enabled_for(configs, file, session_id) ==> forall|j: int|
            0 <= j < mangle::mappings_for(configs, file, session_id).len() && mangle::active(
                mangle::mappings_for(configs, file, session_id)[j],
            ) ==> !holds_word(
                value,
                (#[trigger] mangle::mappings_for(configs, file, session_id)[j]).sensitive,
            ),
    ensures
        mangle::mangled_value_for(configs, file, session_id, value) == value,
    decreases value,
{
    let mappings = mangle::mappings_for(configs, file, session_id);
    let on = mangle::enabled_for(configs, file, session_id);
    let after = mangle::mangled_value_for(configs, file, session_id, value);
    match value {
        JsonValueView::Text(text) => {
            if on {
                law_harmless_text_is_unchanged(text, mappings);
            }
        },
        JsonValueView::List(items) => {
            assert forall|i: int| 0 <= i < items.len() implies #[trigger] after->List_0[i]
                == items[i] by {
                if on {
                    assert forall|j: int|
                        0 <= j < mappings.len() && mangle::active(
                            mappings[j],
                        ) implies !holds_word(items[i], (#[trigger] mappings[j]).sensitive) by {
                        assert(!holds_word(value, mappings[j].sensitive));
                    }
                }
                law_harmless_value_is_unchanged(configs, file, session_id, items[i]);
            }
            assert(after->List_0 =~= items);
        },
        JsonValueView::Object(members) => {
            assert forall|i: int| 0 <= i < members.len() implies #[trigger] after->Object_0[i]
                == members[i] by {
                if on {
                    assert forall|j: int|
                        0 <= j < mappings.len() && mangle::active(
                            mappings[j],
                        ) implies !holds_word(members[i].1, (#[trigger] mappings[j]).sensitive) by {
                        assert(!holds_word(value, mappings[j].sensitive));
                    }
                }
                law_harmless_value_is_unchanged(configs, file, session_id, members[i].1);
            }
            assert(after->Object_0 =~= members);
        },
        _ => {},
    }
}

/// The arguments of a tool call: a string is mangled as a text, and then, if it reads as JSON,
/// the value it denotes is mangled in turn; any other value is mangled as a value.
pub proof fn law_arguments_are_mangled(
    configs: Map<Seq<char>, MangleSessionConfigView>,
    file: MangleConfigView,
    session_id: Seq<char>,
    input: JsonValueView,
)
    ensures
        ({
            let after = mangle::mangled_input_for(configs, file, session_id, input);
            match input {
                JsonValueView::Text(before) => {
                    let sent = mangle::mangled_for(configs, file, session_id, before);
                    &&& crate::json::json_document(sent) matches Ok(value) ==> after
                        == mangle::mangled_value_for(configs, file, session_id, value)
                    &&& crate::json::json_document(sent) is Err ==> after == JsonValueView::Text(
                        sent,
                    )
                },
                _ => after == mangle::mangled_value_for(configs, file, session_id, input),
            }
        }),
{
}

/// With mangling on, every block of a message stays in its place and keeps its kind and what is
/// no text in it; its text afterwards is the text before with all mappings in force applied. Who
/// speaks, when, and how long it took is as it was.
pub proof fn law_every_text_of_a_message_is_mangled(
    configs: Map<Seq<char>, MangleSessionConfigView>,
    file: MangleConfigView,
    session_id: Seq<char>,
    before: Message,
    after: Message,
    i: int,
)
    requires
        mangle::enabled_for(configs, file, session_id),
        mangle::message_mangled_for(configs, file, session_id, before, after),
        0 <= i < before.content.len(),
    ensures
        after.role == before.role,
        after.timestamp == before.timestamp,
        after.tool_duration_ms == before.tool_duration_ms,
        after.content.len() == before.content.len(),
        ({
            let mappings = mangle::mappings_for(configs, file, session_id);
            let now = after.content[i];
            match before.content[i] {
                ContentBlock::Text { text, cache_control } => now is Text && now->Text_text@
                    == mangle::mangled(text@, mappings) && now->cache_control == cache_control,
                ContentBlock::Reasoning { text } => now is Reasoning && now->Reasoning_text@
                    == mangle::mangled(text@, mappings),
                ContentBlock::ReasoningTrace { text } => now is ReasoningTrace
                    && now->ReasoningTrace_text@ == mangle::mangled(text@, mappings),
                ContentBlock::AnthropicThinking { thinking, signature } => now is AnthropicThinking
                    && now->thinking@ == mangle::mangled(thinking@, mappings) && now->signature
                    == signature,
                ContentBlock::ToolUse { id, name, input } => now is ToolUse && now->id == id
                    && now->name == name && now->input@ == mangle::mangled_input_for(
                    configs,
                    file,
                    session_id,
                    input@,
                ),
                ContentBlock::ToolResult { tool_use_id, content, is_error } => now is ToolResult
                    && now->tool_use_id == tool_use_id && now->content@ == mangle::mangled(
                    content@,
                    mappings,
                ) && now->is_error == is_error,
                ContentBlock::Image { .. } => now == before.content[i],
                ContentBlock::OpenAICompaction { .. } => now == before.content[i],
            }
        }),
{
    assert(mangle::block_mangled_for(
        configs,
        file,
        session_id,
        before.content[i],
        after.content[i],
    ));
}

/// A block in which no sensitive word stands goes to the provider as it is: the same kind, the
/// same text, and all else the same. Arguments that come as one string are read first, and then
/// are the value that the string denotes, if no sensitive word stands in that either.
pub proof fn law_harmless_blocks_are_unchanged(
    configs: Map<Seq<char>, MangleSessionConfigView>,
    file: MangleConfigView,
    session_id: Seq<char>,
    before: Message,
    after: Message,
    i: int,
)
    requires
        mangle::message_mangled_for(configs, file, session_id, before, after),
        0 <= i < before.content.len(),
        forall|j: int|
            0 <= j < mangle::mappings_for(configs, file, session_id).len() && mangle::active(
                mangle::mappings_for(configs, file, session_id)[j],
            ) ==> !block_holds_word(
                before.content[i],
                (#[trigger] mangle::mappings_for(configs, file, session_id)[j]).sensitive,
            ),
    ensures
        after.content.len() == before.content.len(),
        ({
            let now = after.content[i];
            match before.content[i] {
                ContentBlock::Text { text, cache_control } => now is Text && now->Text_text@
                    == text@ && now->cache_control == cache_control,
                ContentBlock::Reasoning { text } => now is Reasoning && now->Reasoning_text@
                    == text@,
                ContentBlock::ReasoningTrace { text } => now is ReasoningTrace
                    && now->ReasoningTrace_text@ == text@,
                ContentBlock::AnthropicThinking { thinking, signature } => now is AnthropicThinking
                    && now->thinking@ == thinking@ && now->signature == signature,
                ContentBlock::ToolUse { id, name, input } => {
                    &&& now is ToolUse
                    &&& now->id == id
                    &&& now->name == name
                    &&& !(input@ is Text) ==> now->input@ == input@
                    &&& mangle::enabled_for(configs, file, session_id) ==> (input@ matches
                        JsonValueView::Text(text) ==> match crate::json::json_document(text) {
                        Ok(value) => (forall|j: int|
                            0 <= j < mangle::mappings_for(configs, file, session_id).len()
                                && mangle::active(
                                mangle::mappings_for(configs, file, session_id)[j],
                            ) ==> !holds_word(
                                value,
                                (#[trigger] mangle::mappings_for(
                                    configs,
                                    file,
                                    session_id,
                                )[j]).sensitive,
                            )) ==> now->input@ == value,
                        Err(_) => now->input@ == input@,
                    })
                },
                ContentBlock::ToolResult { tool_use_id, content, is_error } => now is ToolResult
                    && now->tool_use_id == tool_use_id && now->content@ == content@
                    && now->is_error == is_error,
                _ => now == before.content[i],
            }
        }),
{
    let mappings = mangle::mappings_for(configs, file, session_id);
    if mangle::enabled_for(configs, file, session_id) {
        assert(mangle::block_mangled_for(
            configs,
            file,
            session_id,
            before.content[i],
            after.content[i],
        ));
        match before.content[i] {
            ContentBlock::Text { text, .. } => {
                law_harmless_text_is_unchanged(text@, mappings);
            },
            ContentBlock::Reasoning { text } => {
                law_harmless_text_is_unchanged(text@, mappings);
            },
            ContentBlock::ReasoningTrace { text } => {
                law_harmless_text_is_unchanged(text@, mappings);
            },
            ContentBlock::AnthropicThinking { thinking, .. } => {
                law_harmless_text_is_unchanged(thinking@, mappings);
            },
            ContentBlock::ToolUse { input, .. } => {
                match input@ {
                    JsonValueView::Text(text) => {
                        law_harmless_text_is_unchanged(text, mappings);
                        match crate::json::json_document(text) {
                            Ok(value) => {
                                if forall|j: int|
                                    0 <= j < mappings.len() && mangle::active(mappings[j])
                                        ==> !holds_word(value, (#[trigger] mappings[j]).sensitive) {
                                    law_harmless_value_is_unchanged(
                                        configs,
                                        file,
                                        session_id,
                                        value,
                                    );
                                }
                            },
                            Err(_) => {},
                        }
                    },
                    _ => {
                        law_harmless_value_is_unchanged(configs, file, session_id, input@);
                    },
                }
            },
            ContentBlock::ToolResult { content, .. } => {
                law_harmless_text_is_unchanged(content@, mappings);
            },
            _ => {},
        }
    }
}

/// A message goes to the provider as it is, if mangling is off for the session.
pub proof fn law_messages_are_unchanged_when_off(
    configs: Map<Seq<char>, MangleSessionConfigView>,
    file: MangleConfigView,
    session_id: Seq<char>,
    before: Message,
    after: Message,
)
    requires
        !mangle::enabled_for(configs, file, session_id),
        mangle::message_mangled_for(configs, file, session_id, before, after),
    ensures
        after == before,
{
}

/// A string of arguments that has been read as JSON is sent as the value read, mangled; one that
/// is no JSON is sent as the text it has become, as it is.
pub proof fn law_read_arguments_are_mangled(
    configs: Map<Seq<char>, MangleSessionConfigView>,
    file: MangleConfigView,
    session_id: Seq<char>,
    text: Seq<char>,
    parsed: Result<JsonValueView, Seq<char>>,
)
    ensures
        match parsed {
            Ok(value) => mangle::input_after(configs, file, session_id, text, parsed)
                == mangle::mangled_value_for(configs, file, session_id, value),
            Err(_) => mangle::input_after(configs, file, session_id, text, parsed)
                == JsonValueView::Text(text),
        },
{
}

} // verus!
