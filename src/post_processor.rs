//! The prompt handed to the post-processing language model.
use vstd::prelude::*;
use crate::config::AppPromptRule;
use crate::text::{
    contains, has_substring, is_blank, is_blank_seq, join, joined_by, opt_view, replace, replace_all,
    trim, trimmed, views_of,
};

verus! {

/// Token counts of one language-model call.
#[derive(Clone, Debug)]
pub struct LlmUsage {
    pub model: String,
    pub prompt_tokens: u32,
    pub completion_tokens: u32,
}

/// Context gathered from the screen while recording.
pub struct ContextInfo {
    pub accessibility_text: Option<String>,
    pub vision_summary: Option<String>,
    pub vision_terms: Vec<String>,
}

/// What the vision model made of a screenshot.
pub struct VisionContext {
    pub summary: String,
    pub terms: Vec<String>,
}

/// A corrected text with the call's usage.
pub struct PostProcessResult {
    pub text: String,
    pub usage: Option<LlmUsage>,
}

/// Absent or whitespace only.
pub open spec fn blank_opt(o: Option<String>) -> bool {
    match o {
        Some(t) => is_blank_seq(t@),
        None => true,
    }
}

fn is_blank_opt(o: &Option<String>) -> (r: bool)
    ensures
        r == blank_opt(*o),
{
    match o {
        Some(t) => is_blank(t.as_str()),
        None => true,
    }
}

impl ContextInfo {
    /// Nothing worth passing on: no non-blank text, no term.
    pub open spec fn spec_is_empty(&self) -> bool {
        blank_opt(self.accessibility_text) && blank_opt(self.vision_summary)
            && self.vision_terms@.len() == 0
    }

    /// Whether the context holds nothing worth passing on.
    pub fn is_empty(&self) -> (r: bool)
        ensures
            r == self.spec_is_empty(),
    {
        is_blank_opt(&self.accessibility_text) && is_blank_opt(&self.vision_summary)
            && self.vision_terms.len() == 0
    }
}

/// The template used when no application rule applies.
pub const DEFAULT_PROMPT_TEMPLATE: &'static str = "以下の音声認識結果を修正してください。修正後のテキストのみを出力してください。\n\n修正ルール:\n1. フィラー（えーと、あのー）を除去\n2. 技術用語の誤認識を修正（例: \"リアクト\"→\"React\", \"ユーズステート\"→\"useState\"）\n\n入力: {STT結果}";

/// The name of the output language for a language hint.
pub open spec fn label_of(hint: Seq<char>) -> Seq<char> {
    if hint == "ja"@ {
        "日本語"@
    } else if hint == "en"@ {
        "英語"@
    } else {
        "自動判定（日本語/英語）"@
    }
}

fn language_label(language_hint: &str) -> (r: String)
    ensures
        r@ == label_of(language_hint@),
{
    let ja = String::from_str("ja");
    let en = String::from_str("en");
    let hint = String::from_str(language_hint);
    if hint == ja {
        String::from_str("日本語")
    } else if hint == en {
        String::from_str("英語")
    } else {
        String::from_str("自動判定（日本語/英語）")
    }
}

/// The template with `{言語}` replaced by the language's name and
/// `{STT結果}` by the transcript; a template without the transcript
/// placeholder gets the transcript appended as an input line.
pub open spec fn templated(template: Seq<char>, stt: Seq<char>, hint: Seq<char>) -> Seq<char> {
    let p = replace_all(replace_all(template, "{言語}"@, label_of(hint)), "{STT結果}"@, stt);
    if has_substring(template, "{STT結果}"@) {
        p
    } else {
        p + "\n\n入力: "@ + stt
    }
}

fn apply_template(template: &str, stt_result: &str, language_hint: &str) -> (r: String)
    ensures
        r@ == templated(template@, stt_result@, language_hint@),
{
    let label = language_label(language_hint);
    let lang_key = "{言語}";
    let stt_key = "{STT結果}";
    proof {
        reveal_strlit("{言語}");
        reveal_strlit("{STT結果}");
    }
    let first = replace(template, lang_key, label.as_str());
    let mut prompt = replace(first.as_str(), stt_key, stt_result);
    if !contains(template, stt_key) {
        prompt.append("\n\n入力: ");
        prompt.append(stt_result);
    }
    prompt
}

/// The context lines: the selected text and the screen summary when not
/// blank (trimmed), the terms when there are any (comma-separated).
pub open spec fn context_lines(c: ContextInfo) -> Seq<Seq<char>> {
    let a = match c.accessibility_text {
        Some(t) => if !is_blank_seq(t@) {
            seq!["選択テキスト: "@ + trimmed(t@)]
        } else {
            seq![]
        },
        None => seq![],
    };
    let s = match c.vision_summary {
        Some(t) => if !is_blank_seq(t@) {
            seq!["画面の要約: "@ + trimmed(t@)]
        } else {
            seq![]
        },
        None => seq![],
    };
    let v = if c.vision_terms@.len() > 0 {
        seq!["専門用語候補: "@ + joined_by(views_of(c.vision_terms@), ", "@)]
    } else {
        seq![]
    };
    a + s + v
}

/// Each line as a list item, one per line.
pub open spec fn bullets(lines: Seq<Seq<char>>) -> Seq<char>
    decreases lines.len(),
{
    if lines.len() == 0 {
        seq![]
    } else {
        bullets(lines.drop_last()) + "- "@ + lines.last() + "\n"@
    }
}

/// The block appended to a prompt for a context: nothing for an empty one.
pub open spec fn context_block(c: ContextInfo) -> Seq<char> {
    if c.spec_is_empty() || context_lines(c).len() == 0 {
        seq![]
    } else {
        "\n\n画面コンテキスト:\n"@ + bullets(context_lines(c))
    }
}

fn push_line(lines: &mut Vec<String>, prefix: &str, body: &str)
    ensures
        final(lines)@.len() == old(lines)@.len() + 1,
        views_of(final(lines)@) == views_of(old(lines)@).push(prefix@ + body@),
{
    let mut line = String::from_str(prefix);
    line.append(body);
    let ghost before = lines@;
    lines.push(line);
    proof {
        assert(views_of(lines@) =~= views_of(before).push(prefix@ + body@));
    }
}

fn append_context(prompt: &mut String, context: &ContextInfo)
    ensures
        final(prompt)@ == old(prompt)@ + context_block(*context),
{
    if context.is_empty() {
        proof {
            assert(old(prompt)@ + Seq::<char>::empty() =~= old(prompt)@);
        }
        return;
    }
    let mut lines: Vec<String> = Vec::new();
    let ghost c = *context;
    let ghost a: Seq<Seq<char>> = match c.accessibility_text {
        Some(t) => if !is_blank_seq(t@) {
            seq!["選択テキスト: "@ + trimmed(t@)]
        } else {
            seq![]
        },
        None => seq![],
    };
    let ghost s: Seq<Seq<char>> = match c.vision_summary {
        Some(t) => if !is_blank_seq(t@) {
            seq!["画面の要約: "@ + trimmed(t@)]
        } else {
            seq![]
        },
        None => seq![],
    };
    if let Some(text) = context.accessibility_text.as_ref() {
        if !is_blank(text.as_str()) {
            let t = trim(text.as_str());
            push_line(&mut lines, "選択テキスト: ", t.as_str());
        }
    }
    proof {
        assert(views_of(lines@) =~= a);
    }
    if let Some(summary) = context.vision_summary.as_ref() {
        if !is_blank(summary.as_str()) {
            let t = trim(summary.as_str());
            push_line(&mut lines, "画面の要約: ", t.as_str());
        }
    }
    proof {
        assert(views_of(lines@) =~= a + s);
    }
    if context.vision_terms.len() > 0 {
        let terms = join(&context.vision_terms, ", ");
        push_line(&mut lines, "専門用語候補: ", terms.as_str());
    }
    proof {
        assert(views_of(lines@) =~= context_lines(c));
    }
    if lines.len() == 0 {
        proof {
            assert(old(prompt)@ + Seq::<char>::empty() =~= old(prompt)@);
        }
        return;
    }
    prompt.append("\n\n画面コンテキスト:\n");
    let ghost head = prompt@;
    let ghost ls = views_of(lines@);
    let mut i: usize = 0;
    proof {
        assert(ls.take(0) =~= Seq::<Seq<char>>::empty());
        assert(head + bullets(ls.take(0)) =~= head);
    }
    while i < lines.len()
        invariant
            ls == views_of(lines@),
            i <= lines@.len(),
            prompt@ == head + bullets(ls.take(i as int)),
        decreases lines@.len() - i,
    {
        let ghost before = prompt@;
        prompt.append("- ");
        prompt.append(lines[i].as_str());
        prompt.append("\n");
        proof {
            assert(ls.take(i + 1).drop_last() =~= ls.take(i as int));
            assert(ls[i as int] == lines@[i as int]@);
            assert(prompt@ =~= head + bullets(ls.take(i + 1)));
        }
        i = i + 1;
    }
    proof {
        assert(ls.take(lines@.len() as int) =~= ls);
        assert(prompt@ =~= old(prompt)@ + context_block(c));
    }
}

pub open spec fn rule_views(rules: Seq<AppPromptRule>) -> Seq<(Seq<char>, Seq<char>)> {
    rules.map_values(|r: AppPromptRule| (r.app_name@, r.template@))
}

/// The trimmed template of the first rule whose trimmed name is `app`,
/// none when that template is blank or no rule names `app`.
pub open spec fn first_rule_template(rules: Seq<(Seq<char>, Seq<char>)>, app: Seq<char>) -> Option<
    Seq<char>,
>
    decreases rules.len(),
{
    if rules.len() == 0 {
        None
    } else if trimmed(rules[0].0) == app {
        if trimmed(rules[0].1).len() == 0 {
            None
        } else {
            Some(trimmed(rules[0].1))
        }
    } else {
        first_rule_template(rules.skip(1), app)
    }
}

/// The application's own template: none without an application name or
/// with a blank one.
pub open spec fn app_template(app_name: Option<Seq<char>>, rules: Seq<(Seq<char>, Seq<char>)>) -> Option<
    Seq<char>,
> {
    match app_name {
        Some(n) => if trimmed(n).len() == 0 {
            None
        } else {
            first_rule_template(rules, trimmed(n))
        },
        None => None,
    }
}

fn resolve_app_template(app_name: Option<&str>, rules: &[AppPromptRule]) -> (r: Option<String>)
    ensures
        match r {
            Some(t) => app_template(opt_view(app_name), rule_views(rules@)) == Some(t@),
            None => app_template(opt_view(app_name), rule_views(rules@)) is None,
        },
{
    let name = match app_name {
        Some(n) => n,
        None => return None,
    };
    let app = trim(name);
    if app.as_str().is_empty() {
        return None;
    }
    let ghost rv = rule_views(rules@);
    proof {
        assert(opt_view(app_name) == Some(name@));
        assert(app@.len() > 0);
        assert(app_template(opt_view(app_name), rv) == first_rule_template(rv, app@));
    }
    let mut i: usize = 0;
    proof {
        assert(rv.skip(0) =~= rv);
    }
    while i < rules.len()
        invariant
            rv == rule_views(rules@),
            i <= rules@.len(),
            app_template(opt_view(app_name), rv) == first_rule_template(rv, app@),
            first_rule_template(rv, app@) == first_rule_template(rv.skip(i as int), app@),
        decreases rules@.len() - i,
    {
        proof {
            assert(rv.skip(i as int)[0] == rv[i as int]);
            assert(rv[i as int] == (rules@[i as int].app_name@, rules@[i as int].template@));
            assert(rv.skip(i as int).skip(1) =~= rv.skip(i + 1));
        }
        let rule_name = trim(rules[i].app_name.as_str());
        if rule_name == app {
            let template = trim(rules[i].template.as_str());
            proof {
                let rest = rv.skip(i as int);
                assert(rest.len() > 0);
                assert(trimmed(rest[0].0) == app@);
                assert(trimmed(rest[0].1) == template@);
            }
            if template.as_str().is_empty() {
                return None;
            }
            return Some(template);
        }
        i = i + 1;
    }
    proof {
        assert(rv.skip(rules@.len() as int) =~= Seq::<(Seq<char>, Seq<char>)>::empty());
    }
    None
}

pub open spec fn opt_context_block(c: Option<&ContextInfo>) -> Seq<char> {
    match c {
        Some(ctx) => context_block(*ctx),
        None => seq![],
    }
}

/// The prompt for a transcript: the application's template if one applies,
/// else the default one, filled in, followed by the context block.
pub open spec fn prompt_for(
    stt: Seq<char>,
    hint: Seq<char>,
    app_name: Option<Seq<char>>,
    rules: Seq<(Seq<char>, Seq<char>)>,
    context: Option<&ContextInfo>,
) -> Seq<char> {
    let template = match app_template(app_name, rules) {
        Some(t) => t,
        None => DEFAULT_PROMPT_TEMPLATE@,
    };
    templated(template, stt, hint) + opt_context_block(context)
}

/// Builds the prompt that asks the language model to correct a transcript.
pub fn build_prompt(
    stt_result: &str,
    language_hint: &str,
    app_name: Option<&str>,
    app_prompt_rules: &[AppPromptRule],
    context: Option<&ContextInfo>,
) -> (r: String)
    ensures
        r@ == prompt_for(
            stt_result@,
            language_hint@,
            opt_view(app_name),
            rule_views(app_prompt_rules@),
            context,
        ),
{
    let template = match resolve_app_template(app_name, app_prompt_rules) {
        Some(t) => t,
        None => String::from_str(DEFAULT_PROMPT_TEMPLATE),
    };
    let mut prompt = apply_template(template.as_str(), stt_result, language_hint);
    match context {
        Some(c) => append_context(&mut prompt, c),
        None => {
            proof {
                assert(prompt@ + Seq::<char>::empty() =~= prompt@);
            }
        },
    }
    prompt
}

} // verus!
