//! Per-application instructions and the context block built from what was
//! captured on screen.
use vstd::prelude::*;
use crate::text::{
    contains, has_substring, is_blank, is_blank_seq, opt_string_view, opt_view, trim, trimmed,
};

verus! {

/// The instruction added for code-oriented applications.
pub const CODE_STYLE_INSTRUCTION: &'static str = "出力はコード形式（技術用語優先、簡潔）でお願いします。";

/// A user rule: applications whose name contains `app_name` (ignoring case)
/// get `instruction`.
pub struct ContextRule {
    pub app_name: String,
    pub instruction: String,
}

/// What was captured about the frontmost application.
pub struct ContextInfo {
    pub app_name: Option<String>,
    pub selected_text: Option<String>,
    pub instruction: Option<String>,
}

/// The lowercase form of a text, as `str::to_lowercase` computes it.
pub uninterp spec fn lower_of(s: Seq<char>) -> Seq<char>;

/// Relies on `str::to_lowercase`: the Unicode lowercase mapping of each
/// character, a function of the text alone; empty text stays empty.
#[verifier::external_body]
fn lowercase(s: &str) -> (r: String)
    ensures
        r@ == lower_of(s@),
        s@.len() == 0 ==> r@.len() == 0,
{
    s.to_lowercase()
}

/// Application names that get the code-style instruction by default.
pub open spec fn default_patterns() -> Seq<Seq<char>> {
    seq![
        "Visual Studio Code"@,
        "VSCode"@,
        "Cursor"@,
        "Xcode"@,
        "Terminal"@,
        "Codex"@,
    ]
}

fn default_pattern_list() -> (r: Vec<&'static str>)
    ensures
        r@.map_values(|s: &'static str| s@) == default_patterns(),
{
    let r = vec![
        "Visual Studio Code",
        "VSCode",
        "Cursor",
        "Xcode",
        "Terminal",
        "Codex",
    ];
    proof {
        assert(r@.map_values(|s: &'static str| s@) =~= default_patterns());
    }
    r
}

/// The instruction of the first usable user rule (name and instruction not
/// blank) whose trimmed name, lowered, occurs in `app_lower`.
pub open spec fn user_rule_instruction(app_lower: Seq<char>, rules: Seq<ContextRule>) -> Option<
    Seq<char>,
>
    decreases rules.len(),
{
    if rules.len() == 0 {
        None
    } else {
        let pattern = trimmed(rules[0].app_name@);
        let instruction = trimmed(rules[0].instruction@);
        if pattern.len() > 0 && instruction.len() > 0 && has_substring(
            app_lower,
            lower_of(pattern),
        ) {
            Some(instruction)
        } else {
            user_rule_instruction(app_lower, rules.skip(1))
        }
    }
}

/// Whether a default pattern, lowered, occurs in `app_lower`.
pub open spec fn matches_default(app_lower: Seq<char>) -> bool {
    exists|i: int|
        0 <= i < default_patterns().len() && has_substring(
            app_lower,
            lower_of(#[trigger] default_patterns()[i]),
        )
}

/// The instruction for an application: none without a non-blank name; else
/// the first matching user rule's, else the code-style instruction for the
/// default applications, else none.
pub open spec fn instruction_for(app_name: Option<Seq<char>>, rules: Seq<ContextRule>) -> Option<
    Seq<char>,
> {
    match app_name {
        None => None,
        Some(n) => if trimmed(n).len() == 0 {
            None
        } else {
            let app_lower = lower_of(trimmed(n));
            match user_rule_instruction(app_lower, rules) {
                Some(i) => Some(i),
                None => if matches_default(app_lower) {
                    Some(CODE_STYLE_INSTRUCTION@)
                } else {
                    None
                },
            }
        },
    }
}

/// The instruction that applies to the application named `app_name`.
pub fn resolve_instruction(app_name: Option<&str>, user_rules: &[ContextRule]) -> (r: Option<String>)
    ensures
        opt_string_view(r) == instruction_for(opt_view(app_name), user_rules@),
{
    let name = match app_name {
        Some(n) => n,
        None => return None,
    };
    let app = trim(name);
    if app.as_str().is_empty() {
        return None;
    }
    let app_lower = lowercase(app.as_str());
    let ghost outcome = instruction_for(opt_view(app_name), user_rules@);
    let mut i: usize = 0;
    proof {
        assert(user_rules@.skip(0) =~= user_rules@);
        assert(opt_view(app_name) == Some(name@));
        assert(outcome == match user_rule_instruction(app_lower@, user_rules@) {
            Some(i) => Some(i),
            None => if matches_default(app_lower@) {
                Some(CODE_STYLE_INSTRUCTION@)
            } else {
                None
            },
        });
    }
    while i < user_rules.len()
        invariant
            i <= user_rules@.len(),
            outcome == instruction_for(opt_view(app_name), user_rules@),
            outcome == match user_rule_instruction(app_lower@, user_rules@) {
                Some(i) => Some(i),
                None => if matches_default(app_lower@) {
                    Some(CODE_STYLE_INSTRUCTION@)
                } else {
                    None
                },
            },
            user_rule_instruction(app_lower@, user_rules@) == user_rule_instruction(
                app_lower@,
                user_rules@.skip(i as int),
            ),
        decreases user_rules@.len() - i,
    {
        proof {
            assert(user_rules@.skip(i as int)[0] == user_rules@[i as int]);
            assert(user_rules@.skip(i as int).skip(1) =~= user_rules@.skip(i + 1));
        }
        let pattern = trim(user_rules[i].app_name.as_str());
        let instruction = trim(user_rules[i].instruction.as_str());
        if !pattern.as_str().is_empty() && !instruction.as_str().is_empty() {
            let pattern_lower = lowercase(pattern.as_str());
            if contains(app_lower.as_str(), pattern_lower.as_str()) {
                return Some(instruction);
            }
        }
        i = i + 1;
    }
    proof {
        assert(user_rules@.skip(user_rules@.len() as int) =~= Seq::<ContextRule>::empty());
    }
    let defaults = default_pattern_list();
    let mut k: usize = 0;
    while k < defaults.len()
        invariant
            k <= defaults@.len(),
            outcome == instruction_for(opt_view(app_name), user_rules@),
            outcome == if matches_default(app_lower@) {
                Some(CODE_STYLE_INSTRUCTION@)
            } else {
                None
            },
            defaults@.map_values(|s: &'static str| s@) == default_patterns(),
            forall|j: int|
                0 <= j < k ==> !has_substring(app_lower@, lower_of(#[trigger] default_patterns()[j])),
        decreases defaults@.len() - k,
    {
        let pattern_lower = lowercase(defaults[k]);
        proof {
            assert(defaults@[k as int]@ == default_patterns()[k as int]);
        }
        if contains(app_lower.as_str(), pattern_lower.as_str()) {
            proof {
                assert(has_substring(app_lower@, lower_of(default_patterns()[k as int])));
            }
            return Some(String::from_str(CODE_STYLE_INSTRUCTION));
        }
        k = k + 1;
    }
    proof {
        assert(!matches_default(app_lower@));
    }
    None
}

/// The context of the frontmost application from what was captured, with
/// the instruction that applies to it.
pub fn build_context_info(
    rules: &[ContextRule],
    app_name: Option<String>,
    selected_text: Option<String>,
) -> (r: ContextInfo)
    ensures
        r.app_name == app_name,
        r.selected_text == selected_text,
        opt_string_view(r.instruction) == instruction_for(opt_string_view(app_name), rules@),
{
    let instruction = match &app_name {
        Some(n) => resolve_instruction(Some(n.as_str()), rules),
        None => None,
    };
    ContextInfo { app_name, selected_text, instruction }
}

/// The sections of a context block: the selected text and the instruction,
/// each trimmed, when not blank.
pub open spec fn context_sections(info: ContextInfo) -> Seq<Seq<char>> {
    let a = match info.selected_text {
        Some(t) => if !is_blank_seq(t@) {
            seq!["選択テキスト:\n"@ + trimmed(t@)]
        } else {
            seq![]
        },
        None => seq![],
    };
    let b = match info.instruction {
        Some(t) => if !is_blank_seq(t@) {
            seq!["追加指示: "@ + trimmed(t@)]
        } else {
            seq![]
        },
        None => seq![],
    };
    a + b
}

/// The block for a prompt: the sections one per line, none without any.
pub open spec fn context_block_text(info: ContextInfo) -> Option<Seq<char>> {
    let s = context_sections(info);
    if s.len() == 0 {
        None
    } else if s.len() == 1 {
        Some(s[0])
    } else {
        Some(s[0] + "\n"@ + s[1])
    }
}

/// The context block of a prompt, if there is anything to say.
pub fn format_context_block(info: &ContextInfo) -> (r: Option<String>)
    ensures
        opt_string_view(r) == context_block_text(*info),
{
    let mut first: Option<String> = None;
    if let Some(text) = info.selected_text.as_ref() {
        if !is_blank(text.as_str()) {
            let mut s = String::from_str("選択テキスト:\n");
            let t = trim(text.as_str());
            s.append(t.as_str());
            first = Some(s);
        }
    }
    let mut second: Option<String> = None;
    if let Some(text) = info.instruction.as_ref() {
        if !is_blank(text.as_str()) {
            let mut s = String::from_str("追加指示: ");
            let t = trim(text.as_str());
            s.append(t.as_str());
            second = Some(s);
        }
    }
    match (first, second) {
        (None, None) => None,
        (Some(a), None) => Some(a),
        (None, Some(b)) => Some(b),
        (Some(a), Some(b)) => {
            let mut all = a;
            all.append("\n");
            all.append(b.as_str());
            Some(all)
        },
    }
}

} // verus!
