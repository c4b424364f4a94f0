//! The text of the note models: card styling and the card templates.
use vstd::prelude::*;

verus! {

/// The styling of the Cambridge cloze model.
pub const CUSTOM_MODEL_CSS: &'static str = r#".card {
    font-family: ui-sans-serif, -apple-system, BlinkMacSystemFont, "Segoe UI", sans-serif;
    font-size: 16px;
    text-align: left;
    color: #0f172a;
    background: #f8fafc;
    padding: 24px 16px;
}

.mx-auto { margin-left: auto; margin-right: auto; }
.block { display: block; }
.flex { display: flex; }
.grid { display: grid; }
.inline-flex { display: inline-flex; }
.w-full { width: 100%; }
.max-w-2xl { max-width: 42rem; }
.max-w-3xl { max-width: 48rem; }
.max-w-4xl { max-width: 56rem; }
.flex-wrap { flex-wrap: wrap; }
.items-center { align-items: center; }
.gap-2 { gap: 0.5rem; }
.gap-3 { gap: 0.75rem; }
.gap-4 { gap: 1rem; }
.space-y-3 > * + * { margin-top: 0.75rem; }
.space-y-4 > * + * { margin-top: 1rem; }
.space-y-5 > * + * { margin-top: 1.25rem; }
.rounded-2xl { border-radius: 1rem; }
.rounded-full { border-radius: 9999px; }
.border { border-width: 1px; border-style: solid; }
.border-l-2 { border-left-width: 2px; border-left-style: solid; }
.border-slate-200 { border-color: #e2e8f0; }
.bg-white { background: #ffffff; }
.bg-slate-50 { background: #f8fafc; }
.px-3 { padding-left: 0.75rem; padding-right: 0.75rem; }
.py-1\\.5 { padding-top: 0.375rem; padding-bottom: 0.375rem; }
.p-5 { padding: 1.25rem; }
.p-6 { padding: 1.5rem; }
.pl-4 { padding-left: 1rem; }
.pt-1 { padding-top: 0.25rem; }
.pt-2 { padding-top: 0.5rem; }
.shadow-sm { box-shadow: 0 1px 2px rgba(15, 23, 42, 0.08); }
.text-left { text-align: left; }
.text-xs { font-size: 0.75rem; line-height: 1rem; }
.text-sm { font-size: 0.875rem; line-height: 1.25rem; }
.text-base { font-size: 1rem; line-height: 1.5rem; }
.text-2xl { font-size: 1.5rem; line-height: 2rem; }
.text-3xl { font-size: 1.875rem; line-height: 2.25rem; }
.font-medium { font-weight: 500; }
.font-semibold { font-weight: 600; }
.font-bold { font-weight: 700; }
.italic { font-style: italic; }
.leading-7 { line-height: 1.75rem; }
.leading-8 { line-height: 2rem; }
.text-slate-400 { color: #94a3b8; }
.text-slate-500 { color: #64748b; }
.text-slate-600 { color: #475569; }
.text-slate-700 { color: #334155; }
.text-slate-900 { color: #0f172a; }
.text-blue-600 { color: #2563eb; }
.text-pretty { text-wrap: pretty; }
.text-balance { text-wrap: balance; }

.cloze {
    color: #2563eb;
    font-weight: 700;
}

#typeans {
    box-sizing: border-box;
    width: 100%;
    margin-top: 0.75rem;
    padding: 0.875rem 1rem;
    border: 1px solid #cbd5e1;
    border-radius: 0.75rem;
    background: #ffffff;
    color: #0f172a;
    font-size: 1rem;
    line-height: 1.5rem;
}

.typeGood {
    color: #0f766e;
}

.typeBad {
    color: #dc2626;
}

.typeMissed {
    color: #2563eb;
}

#answer {
    margin: 0;
    border: 0;
}

audio {
    width: 100%;
    max-width: 16rem;
}"#;

/// The styling of the Cambridge cloze model.
pub fn custom_model_css() -> (r: &'static str)
    ensures
        r == CUSTOM_MODEL_CSS,
{
    CUSTOM_MODEL_CSS
}

/// The front template of the Cambridge cloze model's card.
pub const CUSTOM_FRONT_TEMPLATE: &'static str = r#"<div class="mx-auto max-w-4xl rounded-2xl border border-slate-200 bg-white p-6 shadow-sm text-left">
    <div class="space-y-5">
        <div class="space-y-3">
            <div class="text-xs font-semibold text-slate-500">Cloze</div>
            <div class="text-3xl font-semibold leading-8 text-slate-900 text-pretty text-balance">{{cloze:Text}}</div>
            {{type:cloze:Text}}
        </div>

        {{#Definition}}
        <div class="space-y-3">
            <div class="text-xs font-semibold text-slate-500">Definition</div>
            <div>{{Definition}}</div>
        </div>
        {{/Definition}}

        <div class="flex flex-wrap gap-2">
            {{#IPA}}<span class="inline-flex items-center rounded-full bg-slate-50 px-3 py-1.5 text-sm font-medium text-blue-600">{{IPA}}</span>{{/IPA}}
            {{#PartOfSpeech}}<span class="inline-flex items-center rounded-full bg-slate-50 px-3 py-1.5 text-sm font-medium text-slate-600">{{PartOfSpeech}}</span>{{/PartOfSpeech}}
        </div>

        {{#Audio}}
        <div class="space-y-3 pt-1">
            <div class="text-xs font-semibold text-slate-500">Audio</div>
            <div>{{Audio}}</div>
        </div>
        {{/Audio}}
    </div>
</div>"#;

/// The front template of the Cambridge cloze model's card.
pub fn custom_front_template() -> (r: &'static str)
    ensures
        r == CUSTOM_FRONT_TEMPLATE,
{
    CUSTOM_FRONT_TEMPLATE
}

/// The back template of the Cambridge cloze model's card.
pub const CUSTOM_BACK_TEMPLATE: &'static str = r#"<div class="mx-auto max-w-4xl rounded-2xl border border-slate-200 bg-white p-6 shadow-sm text-left">
    <div class="space-y-5">
        <div class="space-y-3">
            <div class="text-xs font-semibold text-slate-500">Sentence</div>
            <div class="text-3xl font-semibold leading-8 text-slate-900 text-pretty text-balance">{{cloze:Text}}</div>
            {{type:cloze:Text}}
        </div>

        <div class="space-y-3">
            <div class="text-xs font-semibold text-slate-500">Answer</div>
            <div class="text-3xl font-bold text-slate-900">{{Word}}</div>
        </div>

        <div class="flex flex-wrap gap-2">
            {{#IPA}}<span class="inline-flex items-center rounded-full bg-slate-50 px-3 py-1.5 text-sm font-medium text-blue-600">{{IPA}}</span>{{/IPA}}
            {{#PartOfSpeech}}<span class="inline-flex items-center rounded-full bg-slate-50 px-3 py-1.5 text-sm font-medium text-slate-600">{{PartOfSpeech}}</span>{{/PartOfSpeech}}
        </div>

        {{#Examples}}
        <div class="space-y-3">
            <div class="text-xs font-semibold text-slate-500">Examples</div>
            <div class="grid gap-3">{{Examples}}</div>
        </div>
        {{/Examples}}

        <div class="text-sm text-slate-400">{{Source}}</div>
    </div>
</div>"#;

/// The back template of the Cambridge cloze model's card.
pub fn custom_back_template() -> (r: &'static str)
    ensures
        r == CUSTOM_BACK_TEMPLATE,
{
    CUSTOM_BACK_TEMPLATE
}

/// The styling of the Study4 vocabulary model.
pub const STUDY4_CSS: &'static str = r#".card {
    font-family: ui-sans-serif, -apple-system, BlinkMacSystemFont, "Segoe UI", sans-serif;
    font-size: 16px;
    color: #0f172a;
    background: #f1f5f9;
    padding: 24px;
    margin: 0;
}
.card-wrap {
    max-width: 780px;
    margin: 0 auto;
    background: #ffffff;
    border-radius: 16px;
    box-shadow: 0 2px 16px rgba(15,23,42,0.08);
    padding: 28px 32px;
}

/* ── Header row: thumbnail + word info ── */
.header {
    display: flex;
    align-items: flex-start;
    gap: 20px;
    margin-bottom: 20px;
}
.thumb {
    flex-shrink: 0;
    width: 120px;
    height: 120px;
    border-radius: 12px;
    overflow: hidden;
    background: #f1f5f9;
    border: 1px solid #e2e8f0;
}
.thumb img {
    width: 120px;
    height: 120px;
    object-fit: cover;
    display: block;
}
.word-block { flex: 1; min-width: 0; }
.word-row {
    display: flex;
    align-items: baseline;
    gap: 10px;
    flex-wrap: wrap;
    margin-bottom: 4px;
}
.word {
    font-size: 2.1rem;
    font-weight: 700;
    color: #0f172a;
    line-height: 1.15;
}
.pos {
    font-size: 0.78rem;
    font-weight: 600;
    color: #64748b;
    background: #f1f5f9;
    border-radius: 6px;
    padding: 3px 9px;
    text-transform: uppercase;
    letter-spacing: 0.06em;
    border: 1px solid #e2e8f0;
}
.ipa {
    font-size: 1.05rem;
    color: #2563eb;
    margin-top: 2px;
    margin-bottom: 10px;
}
.def-en {
    font-size: 1rem;
    color: #1e293b;
    line-height: 1.65;
    margin-bottom: 4px;
}
.def-vi {
    font-size: 0.95rem;
    color: #475569;
    line-height: 1.55;
}

/* ── Cloze sentence ── */
.section-label {
    font-size: 0.7rem;
    font-weight: 700;
    color: #94a3b8;
    text-transform: uppercase;
    letter-spacing: 0.09em;
    margin-bottom: 6px;
    margin-top: 18px;
}
.cloze-text {
    font-size: 1.15rem;
    font-weight: 500;
    color: #1e293b;
    line-height: 1.7;
    background: #f8fafc;
    border-radius: 10px;
    padding: 14px 18px;
    border-left: 3px solid #3b82f6;
}

/* ── Examples ── */
.examples { margin-top: 4px; }
.example-item {
    padding: 8px 0 8px 14px;
    border-left: 2px solid #e2e8f0;
    margin-bottom: 10px;
}
.example-text {
    font-size: 0.95rem;
    font-style: italic;
    color: #334155;
    line-height: 1.6;
}
.example-trans {
    font-size: 0.88rem;
    color: #64748b;
    margin-top: 3px;
}

/* ── Divider ── */
.divider {
    border: none;
    border-top: 1px solid #e2e8f0;
    margin: 20px 0;
}

.audio-row { margin-top: 16px; }
audio { width: 100%; max-width: 260px; }
.cloze { color: #2563eb; font-weight: 700; }
#typeans {
    width: 100%;
    box-sizing: border-box;
    margin-top: 12px;
    padding: 11px 16px;
    border: 1px solid #cbd5e1;
    border-radius: 10px;
    background: #f8fafc;
    color: #0f172a;
    font-size: 1rem;
}
.typeGood { color: #0f766e; }
.typeBad  { color: #dc2626; }
.typeMissed { color: #2563eb; }
#answer { margin: 0; border: 0; }
"#;

/// The styling of the Study4 vocabulary model.
pub fn study4_css() -> (r: &'static str)
    ensures
        r == STUDY4_CSS,
{
    STUDY4_CSS
}

/// The front template of the Study4 vocabulary card.
pub const STUDY4_FRONT: &'static str = r#"<div class="card-wrap">
  <div class="header">
    {{#Image}}<div class="thumb">{{Image}}</div>{{/Image}}
    <div class="word-block">
      <div class="section-label">Fill in the blank</div>
      <div class="cloze-text">{{cloze:Text}}</div>
      {{type:cloze:Text}}
      {{#IPA}}<div class="ipa">{{IPA}}</div>{{/IPA}}
      {{#DefinitionEN}}<div class="def-en">{{DefinitionEN}}</div>{{/DefinitionEN}}
    </div>
  </div>
  {{#Audio}}<div class="audio-row">{{Audio}}</div>{{/Audio}}
</div>"#;

/// The front template of the Study4 vocabulary card.
pub fn study4_front() -> (r: &'static str)
    ensures
        r == STUDY4_FRONT,
{
    STUDY4_FRONT
}

/// The back template of the Study4 vocabulary card.
pub const STUDY4_BACK: &'static str = r#"<div class="card-wrap">
  <div class="header">
    {{#Image}}<div class="thumb">{{Image}}</div>{{/Image}}
    <div class="word-block">
      <div class="word-row">
        <span class="word">{{Word}}</span>
        {{#PartOfSpeech}}<span class="pos">{{PartOfSpeech}}</span>{{/PartOfSpeech}}
      </div>
      {{#IPA}}<div class="ipa">{{IPA}}</div>{{/IPA}}
      {{#DefinitionEN}}<div class="def-en">{{DefinitionEN}}</div>{{/DefinitionEN}}
      {{#DefinitionVI}}<div class="def-vi">{{DefinitionVI}}</div>{{/DefinitionVI}}
    </div>
  </div>

  <hr class="divider">

  <div class="section-label">Sentence</div>
  <div class="cloze-text">{{cloze:Text}}</div>

  {{#Examples}}
  <div class="section-label">Examples</div>
  <div class="examples">{{Examples}}</div>
  {{/Examples}}

  {{#Audio}}<div class="audio-row">{{Audio}}</div>{{/Audio}}

  {{#Source}}<div style="font-size:0.7rem;color:#94a3b8;margin-top:18px;">{{Source}}</div>{{/Source}}
</div>"#;

/// The back template of the Study4 vocabulary card.
pub fn study4_back() -> (r: &'static str)
    ensures
        r == STUDY4_BACK,
{
    STUDY4_BACK
}

} // verus!
