//! Pure helpers of the agent session: the knowledge-base tutor block that
//! learning mode adds to the system prompt, reasoning-effort inference,
//! per-tool output limits, tool selection and thinking-block formatting.

use vstd::prelude::*;
use vstd::string::StringExecFns;
use crate::api::ToolDef;
use crate::text::{
    contains_seq, find, first_occurrence_from, from_chars, lemma_first_occurrence_unique, lowercase,
    replace_char, replace_char_spec, slice_to_vec, str_contains, to_chars, to_lowercase, trim, trim_end,
    trim_end_spec, trim_spec, decimal, decimal_chars, leading_count, strip_leading, extend_chars,
    push_str, lemma_leading_count_bound, lemma_leading_count_unique, occurs_at,
};

verus! {

// ---------------------------------------------------------------------------
// Knowledge-base learning mode
// ---------------------------------------------------------------------------

/// Tutoring rules that learning mode appends to the system prompt, between
/// the markers used to strip them again.
pub const KB_TUTOR_BLOCK: &'static str = r#"<!--kb-tutor-begin-->
【学习模式已激活】
你现在是一位知识库学习导师。遵守：
1. 用 kb_learn(topic=当前库) 取下一个知识点，围绕摘要讲解，结合前置知识承上启下，一段一问。
2. 用户回答后出 1-2 道题验证，严格判分（全对 90-100 / 部分 50-79 / 未答上 0-49），立即用 kb_quiz 回填（topic/node/score/question/answer）。
3. 每 3-5 个节点调 kb_graph 刷新图谱，把生成的 HTML 文件路径告知用户（浏览器打开）。
4. 用户闲聊时简短回应一句，随即拉回当前学习节点。
5. 全部节点掌握度 >= 80% 时主动祝贺收官，kb_stats html=true 出 Bento 战绩。
6. 用户中途要「总结一下/小结/学到哪了/进度如何」等：不退出学习模式，调 kb_stats 出阶段报告（已点亮节点、平均掌握度、薄弱点），给简短小结后询问继续下一节点还是休息；用户明确要结束学习时才走退出流程。
<!--kb-tutor-end-->"#;

/// Marker opening the tutor block.
pub open spec fn kb_begin() -> Seq<char> {
    "<!--kb-tutor-begin-->"@
}

/// Marker closing the tutor block.
pub open spec fn kb_end() -> Seq<char> {
    "<!--kb-tutor-end-->"@
}

/// Is a newline.
pub open spec fn is_newline() -> spec_fn(char) -> bool {
    |c: char| c == '\n'
}

/// What `strip_kb_block` returns: when the first begin marker comes before
/// the first end marker, the text before the block followed by the text
/// after it (leading newlines dropped), with trailing whitespace trimmed;
/// otherwise the prompt unchanged.
pub open spec fn strip_kb_spec(p: Seq<char>) -> Seq<char> {
    if exists|s: int, e: int|
        first_occurrence_from(p, kb_begin(), 0, s) && first_occurrence_from(p, kb_end(), 0, e) && e > s
    {
        let (s, e) = choose|s: int, e: int|
            first_occurrence_from(p, kb_begin(), 0, s) && first_occurrence_from(p, kb_end(), 0, e) && e > s;
        trim_end_spec(p.take(s) + strip_leading(p.skip(e + kb_end().len()), is_newline()))
    } else {
        p
    }
}

/// Removes the tutor block from a system prompt.
pub fn strip_kb_block(prompt: &str) -> (r: String)
    ensures
        r@ == strip_kb_spec(prompt@),
{
    proof {
        reveal_strlit("<!--kb-tutor-begin-->");
        reveal_strlit("<!--kb-tutor-end-->");
    }
    let p = to_chars(prompt);
    let begin = to_chars("<!--kb-tutor-begin-->");
    let end = to_chars("<!--kb-tutor-end-->");
    match (find(p.as_slice(), begin.as_slice()), find(p.as_slice(), end.as_slice())) {
        (Some(s), Some(e)) => {
            if e > s {
                proof {
                    let (s2, e2) = choose|s2: int, e2: int|
                        first_occurrence_from(p@, kb_begin(), 0, s2)
                            && first_occurrence_from(p@, kb_end(), 0, e2) && e2 > s2;
                    lemma_first_occurrence_unique(p@, kb_begin(), 0, s as int, s2);
                    lemma_first_occurrence_unique(p@, kb_end(), 0, e as int, e2);
                }
                let mut out = slice_to_vec(p.as_slice(), 0, s);
                let plen = p.len();
                assert(e + end@.len() <= plen);
                let after_start = e + end.len();
                let after = slice_to_vec(p.as_slice(), after_start, p.len());
                let mut k: usize = 0;
                while k < after.len() && after[k] == '\n'
                    invariant
                        k <= after@.len(),
                        forall|j: int| 0 <= j < k ==> is_newline()(#[trigger] after@[j]),
                    decreases after@.len() - k,
                {
                    k = k + 1;
                }
                proof {
                    lemma_leading_count_unique(after@, is_newline(), k as int);
                }
                let rest = slice_to_vec(after.as_slice(), k, after.len());
                extend_chars(&mut out, rest.as_slice());
                let trimmed = trim_end(out.as_slice());
                proof {
                    assert(out@ =~= p@.take(s as int) + strip_leading(p@.skip(e + kb_end().len()), is_newline()));
                }
                return from_chars(trimmed.as_slice());
            } else {
                proof {
                    if exists|s2: int, e2: int|
                        first_occurrence_from(p@, kb_begin(), 0, s2)
                            && first_occurrence_from(p@, kb_end(), 0, e2) && e2 > s2 {
                        let (s2, e2) = choose|s2: int, e2: int|
                            first_occurrence_from(p@, kb_begin(), 0, s2)
                                && first_occurrence_from(p@, kb_end(), 0, e2) && e2 > s2;
                        lemma_first_occurrence_unique(p@, kb_begin(), 0, s as int, s2);
                        lemma_first_occurrence_unique(p@, kb_end(), 0, e as int, e2);
                    }
                }
            }
        },
        _ => {},
    }
    prompt.to_owned()
}

/// The system prompt of learning mode: the base prompt without any earlier
/// tutor block, a blank line, then the tutor block.
pub open spec fn kb_prompt_spec(base: Seq<char>) -> Seq<char> {
    strip_kb_spec(base) + "\n\n"@ + KB_TUTOR_BLOCK@
}

/// Builds the learning-mode system prompt from the current one (the prompt
/// computation of entering learning mode); an earlier block is stripped
/// first so that entering twice adds it once.
pub fn kb_mode_prompt(base: &str) -> (r: String)
    ensures
        r@ == kb_prompt_spec(base@),
{
    let stripped = strip_kb_block(base);
    stripped.concat("\n\n").concat(KB_TUTOR_BLOCK)
}

/// A tutor block: it opens with the begin marker, is long enough to hold
/// both markers, and its only end marker is its last characters.
pub open spec fn block_shaped(b: Seq<char>) -> bool {
    &&& b.len() >= kb_begin().len() + kb_end().len()
    &&& b.take(kb_begin().len() as int) == kb_begin()
    &&& first_occurrence_from(b, kb_end(), 0, b.len() - kb_end().len())
}

/// `s` holds no newline.
pub open spec fn newline_free(s: Seq<char>) -> bool {
    forall|i: int| 0 <= i < s.len() ==> s[i] != '\n'
}

/// A pattern without newlines that occurs in `base + "\n\n" + b` before `b`
/// occurs in `base`.
proof fn lemma_no_cross_newline(base: Seq<char>, b: Seq<char>, pat: Seq<char>, j: int)
    requires
        newline_free(pat),
        pat.len() > 0,
        occurs_at(base + "\n\n"@ + b, pat, j),
        j < base.len() + 2,
    ensures
        occurs_at(base, pat, j),
{
    reveal_strlit("\n\n");
    let t = base + "\n\n"@ + b;
    let n = base.len() as int;
    if j + pat.len() > n {
        let m = if j <= n { n } else { n + 1 };
        assert(t[m] == '\n');
        assert(t.subrange(j, j + pat.len())[m - j] == pat[m - j]);
    } else {
        assert(base.subrange(j, j + pat.len()) =~= t.subrange(j, j + pat.len()));
    }
}

/// Appending newlines does not change the text left after trimming the end.
proof fn lemma_trim_end_newlines(base: Seq<char>)
    ensures
        trim_end_spec(base + "\n\n"@) == trim_end_spec(base),
{
    reveal_strlit("\n\n");
    let t = base + "\n\n"@;
    crate::text::lemma_trailing_count_bound(base, crate::text::ws());
    let k = crate::text::trailing_count(base, crate::text::ws());
    assert forall|i: int| t.len() - (k + 2) <= i < t.len() implies crate::text::ws()(#[trigger] t[i]) by {
        if i < base.len() {
            assert(t[i] == base[i]);
        }
    }
    if k + 2 < t.len() {
        assert(t[t.len() - (k + 2) - 1] == base[base.len() - k - 1]);
    }
    crate::text::lemma_trailing_count_unique(t, crate::text::ws(), (k + 2) as int);
    assert(t.take(t.len() - (k + 2)) =~= base.take(base.len() - k));
}

/// The markers hold no newline.
proof fn lemma_markers_newline_free()
    ensures
        newline_free(kb_begin()),
        newline_free(kb_end()),
        kb_begin().len() == 21,
        kb_end().len() == 19,
{
    reveal_strlit("<!--kb-tutor-begin-->");
    reveal_strlit("<!--kb-tutor-end-->");
}

/// Stripping the block appended to a marker-free base gives the base with
/// its trailing whitespace trimmed.
pub proof fn lemma_strip_appended_block(base: Seq<char>, b: Seq<char>)
    requires
        !contains_seq(base, kb_begin()),
        !contains_seq(base, kb_end()),
        block_shaped(b),
    ensures
        strip_kb_spec(base + "\n\n"@ + b) == trim_end_spec(base),
{
    reveal_strlit("\n\n");
    lemma_markers_newline_free();
    let t = base + "\n\n"@ + b;
    let n = base.len() as int;
    let s = n + 2;
    let e = n + 2 + b.len() - kb_end().len();
    assert(t.subrange(s, s + kb_begin().len()) =~= b.take(kb_begin().len() as int));
    assert forall|j: int| 0 <= j < s implies !occurs_at(t, kb_begin(), j) by {
        if occurs_at(t, kb_begin(), j) {
            lemma_no_cross_newline(base, b, kb_begin(), j);
        }
    }
    assert(first_occurrence_from(t, kb_begin(), 0, s));
    let bl = b.len() - kb_end().len();
    assert(t.subrange(e, e + kb_end().len()) =~= b.subrange(bl, bl + kb_end().len()));
    assert forall|j: int| 0 <= j < e implies !occurs_at(t, kb_end(), j) by {
        if occurs_at(t, kb_end(), j) {
            if j < s {
                lemma_no_cross_newline(base, b, kb_end(), j);
            } else {
                assert(b.subrange(j - s, j - s + kb_end().len()) =~= t.subrange(j, j + kb_end().len()));
                assert(occurs_at(b, kb_end(), j - s));
            }
        }
    }
    assert(first_occurrence_from(t, kb_end(), 0, e));
    let (s2, e2) = choose|s2: int, e2: int|
        first_occurrence_from(t, kb_begin(), 0, s2) && first_occurrence_from(t, kb_end(), 0, e2) && e2 > s2;
    lemma_first_occurrence_unique(t, kb_begin(), 0, s, s2);
    lemma_first_occurrence_unique(t, kb_end(), 0, e, e2);
    let after = t.skip(e + kb_end().len());
    assert(after.len() == 0);
    crate::text::lemma_leading_count_bound(after, is_newline());
    assert(strip_leading(after, is_newline()) =~= Seq::<char>::empty());
    assert(t.take(s) =~= base + "\n\n"@);
    assert(t.take(s) + strip_leading(after, is_newline()) =~= base + "\n\n"@);
    lemma_trim_end_newlines(base);
}

/// A text without a begin marker passes through stripping unchanged.
pub proof fn lemma_strip_without_block(p: Seq<char>)
    requires
        !contains_seq(p, kb_begin()),
    ensures
        strip_kb_spec(p) == p,
{
}

/// A prefix of a text without a marker has no marker either.
proof fn lemma_prefix_marker_free(base: Seq<char>, k: int, pat: Seq<char>)
    requires
        0 <= k <= base.len(),
        !contains_seq(base, pat),
    ensures
        !contains_seq(base.take(k), pat),
{
    if contains_seq(base.take(k), pat) {
        let i = choose|i: int| occurs_at(base.take(k), pat, i);
        assert(base.subrange(i, i + pat.len()) =~= base.take(k).subrange(i, i + pat.len()));
        assert(occurs_at(base, pat, i));
    }
}

/// Learning mode round trip: for a base prompt without tutor markers,
/// leaving learning mode gives the base back (end-trimmed), and entering
/// again after that yields the same prompt as entering on the base, so the
/// block is never added twice and a second strip changes nothing.
pub proof fn lemma_kb_mode_round_trip(base: Seq<char>)
    requires
        !contains_seq(base, kb_begin()),
        !contains_seq(base, kb_end()),
    ensures
        strip_kb_spec(kb_prompt_spec(base)) == trim_end_spec(base),
        kb_prompt_spec(strip_kb_spec(kb_prompt_spec(base))) == kb_prompt_spec(trim_end_spec(base)),
        strip_kb_spec(kb_prompt_spec(strip_kb_spec(kb_prompt_spec(base)))) == strip_kb_spec(kb_prompt_spec(base)),
{
    lemma_tutor_block_shaped();
    let b = KB_TUTOR_BLOCK@;
    lemma_strip_without_block(base);
    lemma_strip_appended_block(base, b);
    let tb = trim_end_spec(base);
    crate::text::lemma_trailing_count_bound(base, crate::text::ws());
    lemma_prefix_marker_free(base, base.len() - crate::text::trailing_count(base, crate::text::ws()), kb_begin());
    lemma_prefix_marker_free(base, base.len() - crate::text::trailing_count(base, crate::text::ws()), kb_end());
    lemma_strip_without_block(tb);
    lemma_strip_appended_block(tb, b);
    crate::text::lemma_strip_trailing_idempotent(base, crate::text::ws());
}

/// The tutor block of this library has the shape the round-trip law needs.
#[verifier::rlimit(100)]
pub proof fn lemma_tutor_block_shaped()
    ensures
        block_shaped(KB_TUTOR_BLOCK@),
{
    reveal_strlit(r#"<!--kb-tutor-begin-->
【学习模式已激活】
你现在是一位知识库学习导师。遵守：
1. 用 kb_learn(topic=当前库) 取下一个知识点，围绕摘要讲解，结合前置知识承上启下，一段一问。
2. 用户回答后出 1-2 道题验证，严格判分（全对 90-100 / 部分 50-79 / 未答上 0-49），立即用 kb_quiz 回填（topic/node/score/question/answer）。
3. 每 3-5 个节点调 kb_graph 刷新图谱，把生成的 HTML 文件路径告知用户（浏览器打开）。
4. 用户闲聊时简短回应一句，随即拉回当前学习节点。
5. 全部节点掌握度 >= 80% 时主动祝贺收官，kb_stats html=true 出 Bento 战绩。
6. 用户中途要「总结一下/小结/学到哪了/进度如何」等：不退出学习模式，调 kb_stats 出阶段报告（已点亮节点、平均掌握度、薄弱点），给简短小结后询问继续下一节点还是休息；用户明确要结束学习时才走退出流程。
<!--kb-tutor-end-->"#);
    reveal_strlit("<!--kb-tutor-begin-->");
    reveal_strlit("<!--kb-tutor-end-->");
    let b = KB_TUTOR_BLOCK@;
    assert(b.take(21) =~= kb_begin());
    // The block holds a `<` only where its two markers start.
    assert(b.subrange(b.len() - 19, b.len() as int) =~= kb_end());
    assert(b[1] != '<'); assert(b[2] != '<'); assert(b[3] != '<'); assert(b[4] != '<'); assert(b[5] != '<'); assert(b[6] != '<');
    assert(b[7] != '<'); assert(b[8] != '<'); assert(b[9] != '<'); assert(b[10] != '<'); assert(b[11] != '<'); assert(b[12] != '<');
    assert(b[13] != '<'); assert(b[14] != '<'); assert(b[15] != '<'); assert(b[16] != '<'); assert(b[17] != '<'); assert(b[18] != '<');
    assert(b[19] != '<'); assert(b[20] != '<'); assert(b[21] != '<'); assert(b[22] != '<'); assert(b[23] != '<'); assert(b[24] != '<');
    assert(b[25] != '<'); assert(b[26] != '<'); assert(b[27] != '<'); assert(b[28] != '<'); assert(b[29] != '<'); assert(b[30] != '<');
    assert(b[31] != '<'); assert(b[32] != '<'); assert(b[33] != '<'); assert(b[34] != '<'); assert(b[35] != '<'); assert(b[36] != '<');
    assert(b[37] != '<'); assert(b[38] != '<'); assert(b[39] != '<'); assert(b[40] != '<'); assert(b[41] != '<'); assert(b[42] != '<');
    assert(b[43] != '<'); assert(b[44] != '<'); assert(b[45] != '<'); assert(b[46] != '<'); assert(b[47] != '<'); assert(b[48] != '<');
    assert(b[49] != '<'); assert(b[50] != '<'); assert(b[51] != '<'); assert(b[52] != '<'); assert(b[53] != '<'); assert(b[54] != '<');
    assert(b[55] != '<'); assert(b[56] != '<'); assert(b[57] != '<'); assert(b[58] != '<'); assert(b[59] != '<'); assert(b[60] != '<');
    assert(b[61] != '<'); assert(b[62] != '<'); assert(b[63] != '<'); assert(b[64] != '<'); assert(b[65] != '<'); assert(b[66] != '<');
    assert(b[67] != '<'); assert(b[68] != '<'); assert(b[69] != '<'); assert(b[70] != '<'); assert(b[71] != '<'); assert(b[72] != '<');
    assert(b[73] != '<'); assert(b[74] != '<'); assert(b[75] != '<'); assert(b[76] != '<'); assert(b[77] != '<'); assert(b[78] != '<');
    assert(b[79] != '<'); assert(b[80] != '<'); assert(b[81] != '<'); assert(b[82] != '<'); assert(b[83] != '<'); assert(b[84] != '<');
    assert(b[85] != '<'); assert(b[86] != '<'); assert(b[87] != '<'); assert(b[88] != '<'); assert(b[89] != '<'); assert(b[90] != '<');
    assert(b[91] != '<'); assert(b[92] != '<'); assert(b[93] != '<'); assert(b[94] != '<'); assert(b[95] != '<'); assert(b[96] != '<');
    assert(b[97] != '<'); assert(b[98] != '<'); assert(b[99] != '<'); assert(b[100] != '<'); assert(b[101] != '<'); assert(b[102] != '<');
    assert(b[103] != '<'); assert(b[104] != '<'); assert(b[105] != '<'); assert(b[106] != '<'); assert(b[107] != '<'); assert(b[108] != '<');
    assert(b[109] != '<'); assert(b[110] != '<'); assert(b[111] != '<'); assert(b[112] != '<'); assert(b[113] != '<'); assert(b[114] != '<');
    assert(b[115] != '<'); assert(b[116] != '<'); assert(b[117] != '<'); assert(b[118] != '<'); assert(b[119] != '<'); assert(b[120] != '<');
    assert(b[121] != '<'); assert(b[122] != '<'); assert(b[123] != '<'); assert(b[124] != '<'); assert(b[125] != '<'); assert(b[126] != '<');
    assert(b[127] != '<'); assert(b[128] != '<'); assert(b[129] != '<'); assert(b[130] != '<'); assert(b[131] != '<'); assert(b[132] != '<');
    assert(b[133] != '<'); assert(b[134] != '<'); assert(b[135] != '<'); assert(b[136] != '<'); assert(b[137] != '<'); assert(b[138] != '<');
    assert(b[139] != '<'); assert(b[140] != '<'); assert(b[141] != '<'); assert(b[142] != '<'); assert(b[143] != '<'); assert(b[144] != '<');
    assert(b[145] != '<'); assert(b[146] != '<'); assert(b[147] != '<'); assert(b[148] != '<'); assert(b[149] != '<'); assert(b[150] != '<');
    assert(b[151] != '<'); assert(b[152] != '<'); assert(b[153] != '<'); assert(b[154] != '<'); assert(b[155] != '<'); assert(b[156] != '<');
    assert(b[157] != '<'); assert(b[158] != '<'); assert(b[159] != '<'); assert(b[160] != '<'); assert(b[161] != '<'); assert(b[162] != '<');
    assert(b[163] != '<'); assert(b[164] != '<'); assert(b[165] != '<'); assert(b[166] != '<'); assert(b[167] != '<'); assert(b[168] != '<');
    assert(b[169] != '<'); assert(b[170] != '<'); assert(b[171] != '<'); assert(b[172] != '<'); assert(b[173] != '<'); assert(b[174] != '<');
    assert(b[175] != '<'); assert(b[176] != '<'); assert(b[177] != '<'); assert(b[178] != '<'); assert(b[179] != '<'); assert(b[180] != '<');
    assert(b[181] != '<'); assert(b[182] != '<'); assert(b[183] != '<'); assert(b[184] != '<'); assert(b[185] != '<'); assert(b[186] != '<');
    assert(b[187] != '<'); assert(b[188] != '<'); assert(b[189] != '<'); assert(b[190] != '<'); assert(b[191] != '<'); assert(b[192] != '<');
    assert(b[193] != '<'); assert(b[194] != '<'); assert(b[195] != '<'); assert(b[196] != '<'); assert(b[197] != '<'); assert(b[198] != '<');
    assert(b[199] != '<'); assert(b[200] != '<'); assert(b[201] != '<'); assert(b[202] != '<'); assert(b[203] != '<'); assert(b[204] != '<');
    assert(b[205] != '<'); assert(b[206] != '<'); assert(b[207] != '<'); assert(b[208] != '<'); assert(b[209] != '<'); assert(b[210] != '<');
    assert(b[211] != '<'); assert(b[212] != '<'); assert(b[213] != '<'); assert(b[214] != '<'); assert(b[215] != '<'); assert(b[216] != '<');
    assert(b[217] != '<'); assert(b[218] != '<'); assert(b[219] != '<'); assert(b[220] != '<'); assert(b[221] != '<'); assert(b[222] != '<');
    assert(b[223] != '<'); assert(b[224] != '<'); assert(b[225] != '<'); assert(b[226] != '<'); assert(b[227] != '<'); assert(b[228] != '<');
    assert(b[229] != '<'); assert(b[230] != '<'); assert(b[231] != '<'); assert(b[232] != '<'); assert(b[233] != '<'); assert(b[234] != '<');
    assert(b[235] != '<'); assert(b[236] != '<'); assert(b[237] != '<'); assert(b[238] != '<'); assert(b[239] != '<'); assert(b[240] != '<');
    assert(b[241] != '<'); assert(b[242] != '<'); assert(b[243] != '<'); assert(b[244] != '<'); assert(b[245] != '<'); assert(b[246] != '<');
    assert(b[247] != '<'); assert(b[248] != '<'); assert(b[249] != '<'); assert(b[250] != '<'); assert(b[251] != '<'); assert(b[252] != '<');
    assert(b[253] != '<'); assert(b[254] != '<'); assert(b[255] != '<'); assert(b[256] != '<'); assert(b[257] != '<'); assert(b[258] != '<');
    assert(b[259] != '<'); assert(b[260] != '<'); assert(b[261] != '<'); assert(b[262] != '<'); assert(b[263] != '<'); assert(b[264] != '<');
    assert(b[265] != '<'); assert(b[266] != '<'); assert(b[267] != '<'); assert(b[268] != '<'); assert(b[269] != '<'); assert(b[270] != '<');
    assert(b[271] != '<'); assert(b[272] != '<'); assert(b[273] != '<'); assert(b[274] != '<'); assert(b[275] != '<'); assert(b[276] != '<');
    assert(b[277] != '<'); assert(b[278] != '<'); assert(b[279] != '<'); assert(b[280] != '<'); assert(b[281] != '<'); assert(b[282] != '<');
    assert(b[283] != '<'); assert(b[284] != '<'); assert(b[285] != '<'); assert(b[286] != '<'); assert(b[287] != '<'); assert(b[288] != '<');
    assert(b[289] != '<'); assert(b[290] != '<'); assert(b[291] != '<'); assert(b[292] != '<'); assert(b[293] != '<'); assert(b[294] != '<');
    assert(b[295] != '<'); assert(b[296] != '<'); assert(b[297] != '<'); assert(b[298] != '<'); assert(b[299] != '<'); assert(b[300] != '<');
    assert(b[301] != '<'); assert(b[302] != '<'); assert(b[303] != '<'); assert(b[304] != '<'); assert(b[305] != '<'); assert(b[306] != '<');
    assert(b[307] != '<'); assert(b[308] != '<'); assert(b[309] != '<'); assert(b[310] != '<'); assert(b[311] != '<'); assert(b[312] != '<');
    assert(b[313] != '<'); assert(b[314] != '<'); assert(b[315] != '<'); assert(b[316] != '<'); assert(b[317] != '<'); assert(b[318] != '<');
    assert(b[319] != '<'); assert(b[320] != '<'); assert(b[321] != '<'); assert(b[322] != '<'); assert(b[323] != '<'); assert(b[324] != '<');
    assert(b[325] != '<'); assert(b[326] != '<'); assert(b[327] != '<'); assert(b[328] != '<'); assert(b[329] != '<'); assert(b[330] != '<');
    assert(b[331] != '<'); assert(b[332] != '<'); assert(b[333] != '<'); assert(b[334] != '<'); assert(b[335] != '<'); assert(b[336] != '<');
    assert(b[337] != '<'); assert(b[338] != '<'); assert(b[339] != '<'); assert(b[340] != '<'); assert(b[341] != '<'); assert(b[342] != '<');
    assert(b[343] != '<'); assert(b[344] != '<'); assert(b[345] != '<'); assert(b[346] != '<'); assert(b[347] != '<'); assert(b[348] != '<');
    assert(b[349] != '<'); assert(b[350] != '<'); assert(b[351] != '<'); assert(b[352] != '<'); assert(b[353] != '<'); assert(b[354] != '<');
    assert(b[355] != '<'); assert(b[356] != '<'); assert(b[357] != '<'); assert(b[358] != '<'); assert(b[359] != '<'); assert(b[360] != '<');
    assert(b[361] != '<'); assert(b[362] != '<'); assert(b[363] != '<'); assert(b[364] != '<'); assert(b[365] != '<'); assert(b[366] != '<');
    assert(b[367] != '<'); assert(b[368] != '<'); assert(b[369] != '<'); assert(b[370] != '<'); assert(b[371] != '<'); assert(b[372] != '<');
    assert(b[373] != '<'); assert(b[374] != '<'); assert(b[375] != '<'); assert(b[376] != '<'); assert(b[377] != '<'); assert(b[378] != '<');
    assert(b[379] != '<'); assert(b[380] != '<'); assert(b[381] != '<'); assert(b[382] != '<'); assert(b[383] != '<'); assert(b[384] != '<');
    assert(b[385] != '<'); assert(b[386] != '<'); assert(b[387] != '<'); assert(b[388] != '<'); assert(b[389] != '<'); assert(b[390] != '<');
    assert(b[391] != '<'); assert(b[392] != '<'); assert(b[393] != '<'); assert(b[394] != '<'); assert(b[395] != '<'); assert(b[396] != '<');
    assert(b[397] != '<'); assert(b[398] != '<'); assert(b[399] != '<'); assert(b[400] != '<'); assert(b[401] != '<'); assert(b[402] != '<');
    assert(b[403] != '<'); assert(b[404] != '<'); assert(b[405] != '<'); assert(b[406] != '<'); assert(b[407] != '<'); assert(b[408] != '<');
    assert(b[409] != '<'); assert(b[410] != '<'); assert(b[411] != '<'); assert(b[412] != '<'); assert(b[413] != '<'); assert(b[414] != '<');
    assert(b[415] != '<'); assert(b[416] != '<'); assert(b[417] != '<'); assert(b[418] != '<'); assert(b[419] != '<'); assert(b[420] != '<');
    assert(b[421] != '<'); assert(b[422] != '<'); assert(b[423] != '<'); assert(b[424] != '<'); assert(b[425] != '<'); assert(b[426] != '<');
    assert(b[427] != '<'); assert(b[428] != '<'); assert(b[429] != '<'); assert(b[430] != '<'); assert(b[431] != '<'); assert(b[432] != '<');
    assert(b[433] != '<'); assert(b[434] != '<'); assert(b[435] != '<'); assert(b[436] != '<'); assert(b[437] != '<'); assert(b[438] != '<');
    assert(b[439] != '<'); assert(b[440] != '<'); assert(b[441] != '<'); assert(b[442] != '<'); assert(b[443] != '<'); assert(b[444] != '<');
    assert(b[445] != '<'); assert(b[446] != '<'); assert(b[447] != '<'); assert(b[448] != '<'); assert(b[449] != '<'); assert(b[450] != '<');
    assert(b[451] != '<'); assert(b[452] != '<'); assert(b[453] != '<'); assert(b[454] != '<'); assert(b[455] != '<'); assert(b[456] != '<');
    assert(b[457] != '<'); assert(b[458] != '<'); assert(b[459] != '<'); assert(b[460] != '<');
    assert forall|j: int| 0 <= j < b.len() - 19 implies !occurs_at(b, kb_end(), j) by {
        if occurs_at(b, kb_end(), j) {
            assert(b.subrange(j, j + 19)[0] == kb_end()[0]);
            assert(b[j] == '<');
            if j == 0 {
                assert(b.subrange(j, j + 19)[13] == kb_end()[13]);
            }
        }
    }
}

// ---------------------------------------------------------------------------
// Reasoning effort
// ---------------------------------------------------------------------------

/// Markers of questions that need deep reasoning.
pub open spec fn complex_markers() -> Seq<Seq<char>> {
    seq!["分析"@, "设计"@, "重构"@, "优化"@, "对比"@, "比较"@, "为什么"@, "为何"@, "权衡"@, "architecture"@, "架构"@, "debug"@, "调试"@, "根因"@, "explain"@, "方案设计"@, "review"@, "审查"@, "评估"@]
}

/// Markers of simple tool requests.
pub open spec fn simple_markers() -> Seq<Seq<char>> {
    seq!["读取"@, "查看"@, "看下"@, "看一下"@, "运行"@, "执行"@, "列出"@, "list"@, "show"@, "cat"@, "ls "@, "状态"@, "status"@, "当前目录"@, "pwd"@, "是什么"@, "在哪"@, "多少"@]
}

/// Greetings and acknowledgements that need no reasoning.
pub open spec fn trivial_markers() -> Seq<Seq<char>> {
    seq!["hi"@, "hello"@, "你好"@, "嗯"@, "ok"@, "好的"@, "谢谢"@, "继续"@, "再见"@]
}

/// Some marker of `ms` occurs in `s`.
pub open spec fn contains_any_spec(s: Seq<char>, ms: Seq<Seq<char>>) -> bool {
    exists|i: int| 0 <= i < ms.len() && contains_seq(s, ms[i])
}

/// ASCII lower-casing of one character (`char::to_ascii_lowercase`).
pub open spec fn ascii_lower(c: char) -> char {
    if 'A' <= c && c <= 'Z' { ((c as u32) + 32) as char } else { c }
}

/// Equality up to ASCII case (`str::eq_ignore_ascii_case`).
pub open spec fn eq_ignore_ascii_case_spec(a: Seq<char>, b: Seq<char>) -> bool {
    a.len() == b.len() && forall|i: int| 0 <= i < a.len() ==> ascii_lower(#[trigger] a[i]) == ascii_lower(b[i])
}

/// What `infer_reasoning_effort` returns for a user message.
pub open spec fn effort_spec(user_msg: Seq<char>) -> Option<Seq<char>> {
    let msg = trim_spec(user_msg);
    let lower = lowercase(msg);
    if contains_any_spec(lower, complex_markers()) || msg.len() > 500 {
        Some("high"@)
    } else if contains_any_spec(lower, simple_markers()) {
        Some("low"@)
    } else if msg.len() <= 2
        || exists|i: int| 0 <= i < trivial_markers().len() && eq_ignore_ascii_case_spec(msg, trivial_markers()[i]) {
        None
    } else {
        Some("medium"@)
    }
}

/// The texts of a list of string slices.
pub open spec fn str_views(ms: Seq<&str>) -> Seq<Seq<char>> {
    ms.map_values(|m: &str| m@)
}

/// Whether some marker of `ms` occurs in `s`.
fn contains_any(s: &[char], ms: &[&str]) -> (r: bool)
    ensures
        r == contains_any_spec(s@, str_views(ms@)),
{
    let mut i: usize = 0;
    while i < ms.len()
        invariant
            i <= ms@.len(),
            forall|j: int| 0 <= j < i ==> !contains_seq(s@, #[trigger] str_views(ms@)[j]),
        decreases ms@.len() - i,
    {
        if str_contains(s, ms[i]) {
            assert(contains_seq(s@, str_views(ms@)[i as int]));
            return true;
        }
        i = i + 1;
    }
    false
}

/// ASCII lower-casing of one character.
fn to_ascii_lower(c: char) -> (r: char)
    ensures
        r == ascii_lower(c),
{
    if 'A' <= c && c <= 'Z' {
        let b: u8 = (c as u8) + 32;
        b as char
    } else {
        c
    }
}

/// Equality up to ASCII case.
pub(crate) fn eq_ignore_ascii_case(a: &[char], b: &str) -> (r: bool)
    ensures
        r == eq_ignore_ascii_case_spec(a@, b@),
{
    let bv = to_chars(b);
    if a.len() != bv.len() {
        return false;
    }
    let mut i: usize = 0;
    while i < a.len()
        invariant
            i <= a@.len(),
            a@.len() == bv@.len(),
            bv@ == b@,
            forall|j: int| 0 <= j < i ==> ascii_lower(#[trigger] a@[j]) == ascii_lower(bv@[j]),
        decreases a@.len() - i,
    {
        if to_ascii_lower(a[i]) != to_ascii_lower(bv[i]) {
            return false;
        }
        i = i + 1;
    }
    true
}

/// Infers the reasoning effort a message calls for: `high` for analysis or
/// design questions and long messages, `low` for simple tool requests, none
/// for greetings and very short messages, otherwise `medium`.
#[verifier::loop_isolation(false)]
pub fn infer_reasoning_effort(user_msg: &str) -> (r: Option<&'static str>)
    ensures
        match r {
            Some(e) => effort_spec(user_msg@) == Some(e@),
            None => effort_spec(user_msg@) is None,
        },
{
    let msg = crate::text::trimmed_chars(user_msg);
    let msg_s = from_chars(msg.as_slice());
    let lower_s = to_lowercase(msg_s.as_str());
    let lower = to_chars(lower_s.as_str());
    let complex: [&str; 19] = ["分析", "设计", "重构", "优化", "对比", "比较", "为什么", "为何", "权衡", "architecture", "架构", "debug", "调试", "根因", "explain", "方案设计", "review", "审查", "评估"];
    let simple: [&str; 18] = ["读取", "查看", "看下", "看一下", "运行", "执行", "列出", "list", "show", "cat", "ls ", "状态", "status", "当前目录", "pwd", "是什么", "在哪", "多少"];
    let trivial: [&str; 9] = ["hi", "hello", "你好", "嗯", "ok", "好的", "谢谢", "继续", "再见"];
    assert(str_views(complex@) =~= complex_markers());
    assert(str_views(simple@) =~= simple_markers());
    assert(str_views(trivial@) =~= trivial_markers());
    if contains_any(lower.as_slice(), complex.as_slice()) || msg.len() > 500 {
        return Some("high");
    }
    if contains_any(lower.as_slice(), simple.as_slice()) {
        return Some("low");
    }
    if msg.len() <= 2 {
        return None;
    }
    let mut i: usize = 0;
    while i < trivial.len()
        invariant
            i <= 9,
            str_views(trivial@) == trivial_markers(),
            forall|j: int| 0 <= j < i ==> !eq_ignore_ascii_case_spec(msg@, #[trigger] trivial_markers()[j]),
        decreases 9 - i,
    {
        if eq_ignore_ascii_case(msg.as_slice(), trivial[i]) {
            assert(eq_ignore_ascii_case_spec(msg@, trivial_markers()[i as int]));
            return None;
        }
        i = i + 1;
    }
    Some("medium")
}

// ---------------------------------------------------------------------------
// Tool output limits
// ---------------------------------------------------------------------------

/// The cap on a tool's output before the configured maximum applies
/// (`None`: only the configured maximum).
pub open spec fn tool_output_cap(name: Seq<char>) -> Option<int> {
    if name == "run_command"@ { Some(5000) }
    else if name == "web_search"@ { Some(4000) }
    else if name == "web_fetch"@ { Some(8000) }
    else if name == "read_file"@ || name == "read_pdf"@ { Some(10000) }
    else if name == "read_docx"@ || name == "read_pptx"@ || name == "read_excel"@ { Some(8000) }
    else if name == "delegate_task"@ { None }
    else { Some(5000) }
}

/// Largest number of output characters kept for a tool: its own cap or
/// `default_max`, whichever is smaller.
pub fn max_output_for_tool(name: &str, default_max: usize) -> (r: usize)
    ensures
        r == match tool_output_cap(name@) {
            Some(cap) => if cap < default_max { cap } else { default_max as int },
            None => default_max as int,
        },
{
    let n = to_chars(name);
    let cap: usize = if crate::text::eq_str(n.as_slice(), "run_command") {
        5000
    } else if crate::text::eq_str(n.as_slice(), "web_search") {
        4000
    } else if crate::text::eq_str(n.as_slice(), "web_fetch") {
        8000
    } else if crate::text::eq_str(n.as_slice(), "read_file") || crate::text::eq_str(n.as_slice(), "read_pdf") {
        10000
    } else if crate::text::eq_str(n.as_slice(), "read_docx") || crate::text::eq_str(n.as_slice(), "read_pptx")
        || crate::text::eq_str(n.as_slice(), "read_excel") {
        8000
    } else if crate::text::eq_str(n.as_slice(), "delegate_task") {
        return default_max;
    } else {
        5000
    };
    if cap < default_max { cap } else { default_max }
}

// ---------------------------------------------------------------------------
// Thinking blocks
// ---------------------------------------------------------------------------

/// The thinking text quoted as Markdown: every line prefixed by `> `.
pub open spec fn quoted(t: Seq<char>) -> Seq<char> {
    replace_char_spec(t, '\n', "\n> "@)
}

/// What `format_thinking_block` returns: a header, then the thinking quoted;
/// over 200 characters only the first 180 are shown and the header gives
/// the full count.
pub open spec fn thinking_block_spec(t: Seq<char>) -> Seq<char> {
    if t.len() > 200 {
        "🤔 **思考过程** ("@ + decimal(t.len()) + "字)\n> "@ + quoted(t.take(180)) + "\n\n"@
    } else {
        "🤔 **思考过程**\n> "@ + quoted(t) + "\n\n"@
    }
}

/// Formats streamed thinking as a Markdown quote block.
pub fn format_thinking_block(thinking: &str) -> (r: String)
    ensures
        r@ == thinking_block_spec(thinking@),
{
    let t = to_chars(thinking);
    let mut out: Vec<char> = Vec::new();
    if t.len() > 200 {
        let head = slice_to_vec(t.as_slice(), 0, 180);
        push_str(&mut out, "🤔 **思考过程** (");
        let n = decimal_chars(t.len() as u64);
        extend_chars(&mut out, n.as_slice());
        push_str(&mut out, "字)\n> ");
        let q = replace_char(head.as_slice(), '\n', "\n> ");
        extend_chars(&mut out, q.as_slice());
        push_str(&mut out, "\n\n");
        assert(head@ =~= thinking@.take(180));
    } else {
        push_str(&mut out, "🤔 **思考过程**\n> ");
        let q = replace_char(t.as_slice(), '\n', "\n> ");
        extend_chars(&mut out, q.as_slice());
        push_str(&mut out, "\n\n");
    }
    from_chars(out.as_slice())
}

// ---------------------------------------------------------------------------
// Tool selection
// ---------------------------------------------------------------------------

/// The `k`-th optional tool group for a lower-cased message: its tools when
/// one of its keywords occurs, else nothing.
pub open spec fn tool_group(lower: Seq<char>, k: int) -> Seq<Seq<char>> {
    if k == 0 { if contains_any_spec(lower, seq!["技能"@, "skill"@]) { seq!["run_skill"@, "skill_list"@, "skill_search"@, "skill_create"@, "skill_patch"@, "skill_manage"@] } else { Seq::empty() } }
    else     if k == 1 { if contains_any_spec(lower, seq!["搜索"@, "查一下"@, "search"@, "百度"@]) { seq!["web_search"@] } else { Seq::empty() } }
    else     if k == 2 { if contains_any_spec(lower, seq!["网页"@, "url"@, "fetch"@]) { seq!["web_fetch"@] } else { Seq::empty() } }
    else     if k == 3 { if contains_any_spec(lower, seq!["excel"@, "表格"@, "xlsx"@]) { seq!["read_excel"@, "write_excel"@] } else { Seq::empty() } }
    else     if k == 4 { if contains_any_spec(lower, seq!["word"@, "docx"@, "文档"@]) { seq!["read_docx"@, "write_docx"@] } else { Seq::empty() } }
    else     if k == 5 { if contains_any_spec(lower, seq!["ppt"@, "pptx"@, "幻灯片"@]) { seq!["read_pptx"@] } else { Seq::empty() } }
    else     if k == 6 { if contains_any_spec(lower, seq!["pdf"@]) { seq!["read_pdf"@] } else { Seq::empty() } }
    else     if k == 7 { if contains_any_spec(lower, seq!["解析"@, "parse"@, "截图"@]) { seq!["parse_document"@, "screenshot_document"@, "check_document_complexity"@] } else { Seq::empty() } }
    else     if k == 8 { if contains_any_spec(lower, seq!["委派"@, "delegate"@, "子任务"@]) { seq!["delegate_task"@] } else { Seq::empty() } }
    else { if contains_any_spec(lower, seq!["学习"@, "知识库"@, "kb_"@, "/learn"@]) { seq!["kb_create"@, "kb_append"@, "kb_graph"@, "kb_learn"@, "kb_quiz"@, "kb_stats"@, "kb_list"@] } else { Seq::empty() } }
}

/// Tool names offered for a lower-cased message when only the first `upto`
/// optional groups are considered.
pub open spec fn wanted_tools_upto(lower: Seq<char>, upto: int) -> Seq<Seq<char>>
    decreases upto,
{
    if upto <= 0 {
        seq!["read_file"@, "write_file"@, "run_command"@, "get_current_time"@, "memory"@, "search_content"@, "glob"@]
    } else {
        wanted_tools_upto(lower, upto - 1) + tool_group(lower, upto - 1)
    }
}

/// Names of the tools a message calls for: the core tools, plus each group
/// whose keywords occur in the lower-cased message.
pub open spec fn wanted_tools_spec(lower: Seq<char>) -> Seq<Seq<char>> {
    wanted_tools_upto(lower, 10)
}

/// Appends tool names.
fn push_names(wanted: &mut Vec<&'static str>, names: &[&'static str])
    ensures
        str_views(final(wanted)@) == str_views(old(wanted)@) + str_views(names@),
{
    let mut i: usize = 0;
    while i < names.len()
        invariant
            i <= names@.len(),
            str_views(wanted@) == str_views(old(wanted)@) + str_views(names@.take(i as int)),
        decreases names@.len() - i,
    {
        let ghost before = wanted@;
        proof {
            assert(names@.take(i + 1) =~= names@.take(i as int).push(names@[i as int]));
            assert(str_views(names@.take(i + 1)) =~= str_views(names@.take(i as int)).push(names@[i as int]@));
        }
        wanted.push(names[i]);
        proof {
            assert(str_views(wanted@) =~= str_views(before).push(names@[i as int]@));
        }
        i = i + 1;
        assert(str_views(wanted@) =~= str_views(old(wanted)@) + str_views(names@.take(i as int)));
    }
    assert(names@.take(names@.len() as int) =~= names@);
}

/// Names of the tools worth offering for a lower-cased message.
pub fn wanted_tools(lower: &[char]) -> (r: Vec<&'static str>)
    ensures
        str_views(r@) == wanted_tools_spec(lower@),
{
    let base: [&str; 7] = ["read_file", "write_file", "run_command", "get_current_time", "memory", "search_content", "glob"];
    let mut wanted: Vec<&'static str> = Vec::new();
    push_names(&mut wanted, base.as_slice());
    assert(str_views(base@) =~= seq!["read_file"@, "write_file"@, "run_command"@, "get_current_time"@, "memory"@, "search_content"@, "glob"@]);
    assert(str_views(wanted@) =~= wanted_tools_upto(lower@, 0));
    let trig0: [&str; 2] = ["技能", "skill"];
    let tools0: [&str; 6] = ["run_skill", "skill_list", "skill_search", "skill_create", "skill_patch", "skill_manage"];
    assert(str_views(trig0@) =~= seq!["技能"@, "skill"@]);
    assert(str_views(tools0@) =~= seq!["run_skill"@, "skill_list"@, "skill_search"@, "skill_create"@, "skill_patch"@, "skill_manage"@]);
    if contains_any(lower, trig0.as_slice()) {
        push_names(&mut wanted, tools0.as_slice());
    }
    assert(str_views(wanted@) =~= wanted_tools_upto(lower@, 1));
    let trig1: [&str; 4] = ["搜索", "查一下", "search", "百度"];
    let tools1: [&str; 1] = ["web_search"];
    assert(str_views(trig1@) =~= seq!["搜索"@, "查一下"@, "search"@, "百度"@]);
    assert(str_views(tools1@) =~= seq!["web_search"@]);
    if contains_any(lower, trig1.as_slice()) {
        push_names(&mut wanted, tools1.as_slice());
    }
    assert(str_views(wanted@) =~= wanted_tools_upto(lower@, 2));
    let trig2: [&str; 3] = ["网页", "url", "fetch"];
    let tools2: [&str; 1] = ["web_fetch"];
    assert(str_views(trig2@) =~= seq!["网页"@, "url"@, "fetch"@]);
    assert(str_views(tools2@) =~= seq!["web_fetch"@]);
    if contains_any(lower, trig2.as_slice()) {
        push_names(&mut wanted, tools2.as_slice());
    }
    assert(str_views(wanted@) =~= wanted_tools_upto(lower@, 3));
    let trig3: [&str; 3] = ["excel", "表格", "xlsx"];
    let tools3: [&str; 2] = ["read_excel", "write_excel"];
    assert(str_views(trig3@) =~= seq!["excel"@, "表格"@, "xlsx"@]);
    assert(str_views(tools3@) =~= seq!["read_excel"@, "write_excel"@]);
    if contains_any(lower, trig3.as_slice()) {
        push_names(&mut wanted, tools3.as_slice());
    }
    assert(str_views(wanted@) =~= wanted_tools_upto(lower@, 4));
    let trig4: [&str; 3] = ["word", "docx", "文档"];
    let tools4: [&str; 2] = ["read_docx", "write_docx"];
    assert(str_views(trig4@) =~= seq!["word"@, "docx"@, "文档"@]);
    assert(str_views(tools4@) =~= seq!["read_docx"@, "write_docx"@]);
    if contains_any(lower, trig4.as_slice()) {
        push_names(&mut wanted, tools4.as_slice());
    }
    assert(str_views(wanted@) =~= wanted_tools_upto(lower@, 5));
    let trig5: [&str; 3] = ["ppt", "pptx", "幻灯片"];
    let tools5: [&str; 1] = ["read_pptx"];
    assert(str_views(trig5@) =~= seq!["ppt"@, "pptx"@, "幻灯片"@]);
    assert(str_views(tools5@) =~= seq!["read_pptx"@]);
    if contains_any(lower, trig5.as_slice()) {
        push_names(&mut wanted, tools5.as_slice());
    }
    assert(str_views(wanted@) =~= wanted_tools_upto(lower@, 6));
    let trig6: [&str; 1] = ["pdf"];
    let tools6: [&str; 1] = ["read_pdf"];
    assert(str_views(trig6@) =~= seq!["pdf"@]);
    assert(str_views(tools6@) =~= seq!["read_pdf"@]);
    if contains_any(lower, trig6.as_slice()) {
        push_names(&mut wanted, tools6.as_slice());
    }
    assert(str_views(wanted@) =~= wanted_tools_upto(lower@, 7));
    let trig7: [&str; 3] = ["解析", "parse", "截图"];
    let tools7: [&str; 3] = ["parse_document", "screenshot_document", "check_document_complexity"];
    assert(str_views(trig7@) =~= seq!["解析"@, "parse"@, "截图"@]);
    assert(str_views(tools7@) =~= seq!["parse_document"@, "screenshot_document"@, "check_document_complexity"@]);
    if contains_any(lower, trig7.as_slice()) {
        push_names(&mut wanted, tools7.as_slice());
    }
    assert(str_views(wanted@) =~= wanted_tools_upto(lower@, 8));
    let trig8: [&str; 3] = ["委派", "delegate", "子任务"];
    let tools8: [&str; 1] = ["delegate_task"];
    assert(str_views(trig8@) =~= seq!["委派"@, "delegate"@, "子任务"@]);
    assert(str_views(tools8@) =~= seq!["delegate_task"@]);
    if contains_any(lower, trig8.as_slice()) {
        push_names(&mut wanted, tools8.as_slice());
    }
    assert(str_views(wanted@) =~= wanted_tools_upto(lower@, 9));
    let trig9: [&str; 4] = ["学习", "知识库", "kb_", "/learn"];
    let tools9: [&str; 7] = ["kb_create", "kb_append", "kb_graph", "kb_learn", "kb_quiz", "kb_stats", "kb_list"];
    assert(str_views(trig9@) =~= seq!["学习"@, "知识库"@, "kb_"@, "/learn"@]);
    assert(str_views(tools9@) =~= seq!["kb_create"@, "kb_append"@, "kb_graph"@, "kb_learn"@, "kb_quiz"@, "kb_stats"@, "kb_list"@]);
    if contains_any(lower, trig9.as_slice()) {
        push_names(&mut wanted, tools9.as_slice());
    }
    assert(str_views(wanted@) =~= wanted_tools_upto(lower@, 10));
    wanted
}

/// The tools of `ts` whose names are in `wanted`, in order.
pub open spec fn keep_wanted(ts: Seq<ToolDef>, wanted: Seq<Seq<char>>) -> Seq<ToolDef>
    decreases ts.len(),
{
    if ts.len() == 0 {
        Seq::empty()
    } else {
        keep_wanted(ts.drop_last(), wanted)
            + if wanted.contains(ts.last().function.name@) { seq![ts.last()] } else { Seq::empty() }
    }
}

/// What `select_tools` returns: the wanted tools when at least five of
/// them are available, otherwise every tool.
pub open spec fn select_tools_spec(user_msg: Seq<char>, all: Seq<ToolDef>) -> Seq<ToolDef> {
    let kept = keep_wanted(all, wanted_tools_spec(lowercase(user_msg)));
    if kept.len() >= 5 { kept } else { all }
}

/// Whether `name` is one of `wanted`.
fn name_wanted(name: &String, wanted: &Vec<&'static str>) -> (r: bool)
    ensures
        r == str_views(wanted@).contains(name@),
{
    let n = to_chars(name.as_str());
    let mut i: usize = 0;
    while i < wanted.len()
        invariant
            i <= wanted@.len(),
            n@ == name@,
            forall|j: int| 0 <= j < i ==> #[trigger] str_views(wanted@)[j] != name@,
        decreases wanted@.len() - i,
    {
        if crate::text::eq_str(n.as_slice(), wanted[i]) {
            assert(str_views(wanted@)[i as int] == name@);
            return true;
        }
        i = i + 1;
    }
    false
}

/// Narrows the tool list to what the message calls for, to save prompt
/// tokens; falls back to every tool when fewer than five would remain.
pub fn select_tools(user_msg: &str, all: Vec<ToolDef>) -> (r: Vec<ToolDef>)
    ensures
        r@ == select_tools_spec(user_msg@, all@),
{
    let lower_s = to_lowercase(user_msg);
    let lower = to_chars(lower_s.as_str());
    let wanted = wanted_tools(lower.as_slice());
    let ghost w = str_views(wanted@);
    let mut count: usize = 0;
    let mut i: usize = 0;
    while i < all.len()
        invariant
            i <= all@.len(),
            count == keep_wanted(all@.take(i as int), w).len(),
            count <= i,
            w == str_views(wanted@),
        decreases all@.len() - i,
    {
        proof {
            assert(all@.take(i + 1).drop_last() =~= all@.take(i as int));
        }
        if name_wanted(&all[i].function.name, &wanted) {
            count = count + 1;
        }
        i = i + 1;
    }
    assert(all@.take(all@.len() as int) =~= all@);
    if count < 5 {
        return all;
    }
    let ghost orig = all@;
    let n = all.len();
    let mut rest = all;
    let mut kept: Vec<ToolDef> = Vec::new();
    let mut k: usize = 0;
    while rest.len() > 0
        invariant
            k <= orig.len(),
            orig.len() == n,
            rest@ == orig.skip(k as int),
            kept@ == keep_wanted(orig.take(k as int), w),
            w == str_views(wanted@),
        decreases rest@.len(),
    {
        let t = rest.remove(0);
        proof {
            assert(orig.take(k + 1).drop_last() =~= orig.take(k as int));
            assert(t == orig[k as int]);
        }
        if name_wanted(&t.function.name, &wanted) {
            kept.push(t);
        }
        k = k + 1;
        assert(rest@ =~= orig.skip(k as int));
    }
    assert(orig.take(k as int) =~= orig);
    kept
}


/// The tools of the groups up to `upto` stay offered as later groups are
/// added.
proof fn lemma_wanted_grows(lower: Seq<char>, a: int, b: int, n: Seq<char>)
    requires
        0 <= a <= b,
        wanted_tools_upto(lower, a).contains(n),
    ensures
        wanted_tools_upto(lower, b).contains(n),
    decreases b - a,
{
    if a < b {
        lemma_wanted_grows(lower, a, b - 1, n);
        let w = wanted_tools_upto(lower, b - 1);
        let k = choose|k: int| 0 <= k < w.len() && w[k] == n;
        assert((w + tool_group(lower, b - 1))[k] == n);
    }
}

/// A wanted tool that is available is kept.
proof fn lemma_keep_wanted_contains(ts: Seq<ToolDef>, wanted: Seq<Seq<char>>, i: int)
    requires
        0 <= i < ts.len(),
        wanted.contains(ts[i].function.name@),
    ensures
        keep_wanted(ts, wanted).contains(ts[i]),
    decreases ts.len(),
{
    let t = ts.drop_last();
    let r = keep_wanted(t, wanted);
    if i < ts.len() - 1 {
        assert(t[i] == ts[i]);
        lemma_keep_wanted_contains(t, wanted, i);
        let j = choose|j: int| 0 <= j < r.len() && r[j] == t[i];
        assert(keep_wanted(ts, wanted)[j] == r[j]);
    } else {
        assert(keep_wanted(ts, wanted) == r + seq![ts.last()]);
        assert(keep_wanted(ts, wanted)[r.len() as int] == ts[i]);
    }
}

/// A message that mentions PDF (in lower case) is offered `read_pdf`
/// whenever that tool is available.
pub proof fn lemma_pdf_offers_read_pdf(user_msg: Seq<char>, all: Seq<ToolDef>, i: int)
    requires
        contains_seq(lowercase(user_msg), "pdf"@),
        0 <= i < all.len(),
        all[i].function.name@ == "read_pdf"@,
    ensures
        select_tools_spec(user_msg, all).contains(all[i]),
{
    let lower = lowercase(user_msg);
    assert(seq!["pdf"@][0] == "pdf"@);
    assert(contains_any_spec(lower, seq!["pdf"@]));
    assert(tool_group(lower, 6) == seq!["read_pdf"@]);
    let w6 = wanted_tools_upto(lower, 6);
    assert((w6 + tool_group(lower, 6))[w6.len() as int] == "read_pdf"@);
    assert(wanted_tools_upto(lower, 7).contains("read_pdf"@));
    lemma_wanted_grows(lower, 7, 10, "read_pdf"@);
    lemma_keep_wanted_contains(all, wanted_tools_spec(lower), i);
    assert(all.contains(all[i]));
}

/// The markers of messages that call for deep reasoning.
pub open spec fn deep_markers() -> Seq<Seq<char>> {
    seq!["分析"@, "设计"@, "重构"@, "优化"@, "对比"@, "比较"@, "为什么"@, "为何"@, "权衡"@, "architecture"@, "架构"@,
        "debug"@, "调试"@, "根因"@, "explain"@, "方案设计"@, "review"@, "审查"@, "评估"@]
}

/// The markers of simple requests.
pub open spec fn quick_markers() -> Seq<Seq<char>> {
    seq!["读取"@, "查看"@, "看下"@, "看一下"@, "运行"@, "执行"@, "列出"@, "list"@, "show"@, "cat"@, "ls "@, "状态"@,
        "status"@, "当前目录"@, "pwd"@, "是什么"@, "在哪"@, "多少"@]
}

/// A message whose trimmed, lower-cased text holds a marker of deep
/// reasoning (such as `分析` or `为什么`) gets effort `high`; one that holds
/// no such marker, is at most 500 characters long and holds a marker of a
/// simple request gets `low`.
pub proof fn lemma_effort_markers(user_msg: Seq<char>, m: Seq<char>)
    ensures
        deep_markers().contains(m) && contains_seq(lowercase(trim_spec(user_msg)), m)
            ==> effort_spec(user_msg) == Some("high"@),
        quick_markers().contains(m) && contains_seq(lowercase(trim_spec(user_msg)), m)
            && trim_spec(user_msg).len() <= 500
            && (forall|d: Seq<char>| #[trigger] deep_markers().contains(d) ==> !contains_seq(lowercase(trim_spec(user_msg)), d))
            ==> effort_spec(user_msg) == Some("low"@),
{
    let lower = lowercase(trim_spec(user_msg));
    assert(complex_markers() == deep_markers());
    assert(simple_markers() == quick_markers());
    if deep_markers().contains(m) && contains_seq(lower, m) {
        let k = choose|k: int| 0 <= k < deep_markers().len() && deep_markers()[k] == m;
        assert(contains_seq(lower, complex_markers()[k]));
    }
    if quick_markers().contains(m) && contains_seq(lower, m)
        && (forall|d: Seq<char>| #[trigger] deep_markers().contains(d) ==> !contains_seq(lower, d)) {
        let k = choose|k: int| 0 <= k < quick_markers().len() && quick_markers()[k] == m;
        assert(contains_seq(lower, simple_markers()[k]));
        assert forall|k2: int| 0 <= k2 < complex_markers().len() implies !contains_seq(lower, #[trigger] complex_markers()[k2]) by {
            assert(deep_markers().contains(deep_markers()[k2]));
        }
    }
}


/// The keywords of optional tool group `k`.
pub open spec fn group_keywords(k: int) -> Seq<Seq<char>> {
    if k == 0 { seq!["技能"@, "skill"@] }
    else if k == 1 { seq!["搜索"@, "查一下"@, "search"@, "百度"@] }
    else if k == 2 { seq!["网页"@, "url"@, "fetch"@] }
    else if k == 3 { seq!["excel"@, "表格"@, "xlsx"@] }
    else if k == 4 { seq!["word"@, "docx"@, "文档"@] }
    else if k == 5 { seq!["ppt"@, "pptx"@, "幻灯片"@] }
    else if k == 6 { seq!["pdf"@] }
    else if k == 7 { seq!["解析"@, "parse"@, "截图"@] }
    else if k == 8 { seq!["委派"@, "delegate"@, "子任务"@] }
    else { seq!["学习"@, "知识库"@, "kb_"@, "/learn"@] }
}

/// The tools of optional tool group `k`.
pub open spec fn group_tools(k: int) -> Seq<Seq<char>> {
    if k == 0 { seq!["run_skill"@, "skill_list"@, "skill_search"@, "skill_create"@, "skill_patch"@, "skill_manage"@] }
    else if k == 1 { seq!["web_search"@] }
    else if k == 2 { seq!["web_fetch"@] }
    else if k == 3 { seq!["read_excel"@, "write_excel"@] }
    else if k == 4 { seq!["read_docx"@, "write_docx"@] }
    else if k == 5 { seq!["read_pptx"@] }
    else if k == 6 { seq!["read_pdf"@] }
    else if k == 7 { seq!["parse_document"@, "screenshot_document"@, "check_document_complexity"@] }
    else if k == 8 { seq!["delegate_task"@] }
    else { seq!["kb_create"@, "kb_append"@, "kb_graph"@, "kb_learn"@, "kb_quiz"@, "kb_stats"@, "kb_list"@] }
}

/// The tools always offered.
pub open spec fn always_offered() -> Seq<Seq<char>> {
    seq!["read_file"@, "write_file"@, "run_command"@, "get_current_time"@, "memory"@, "search_content"@, "glob"@]
}

/// Every available tool that the message calls for is offered: the core
/// tools always, and the tools of each group one of whose keywords occurs
/// in the lower-cased message.
pub proof fn lemma_offered_tools(user_msg: Seq<char>, all: Seq<ToolDef>, i: int, k: int, w: Seq<char>)
    requires
        0 <= i < all.len(),
        always_offered().contains(all[i].function.name@) || (0 <= k < 10 && group_keywords(k).contains(w)
            && contains_seq(lowercase(user_msg), w) && group_tools(k).contains(all[i].function.name@)),
    ensures
        select_tools_spec(user_msg, all).contains(all[i]),
{
    let lower = lowercase(user_msg);
    let n = all[i].function.name@;
    if always_offered().contains(n) {
        assert(wanted_tools_upto(lower, 0) == always_offered());
        lemma_wanted_grows(lower, 0, 10, n);
    } else {
        let kw = group_keywords(k);
        let j = choose|j: int| 0 <= j < kw.len() && kw[j] == w;
        assert(tool_group(lower, k) == if contains_any_spec(lower, kw) { group_tools(k) } else { Seq::empty() });
        assert(contains_any_spec(lower, kw));
        let g = group_tools(k);
        let m = choose|m: int| 0 <= m < g.len() && g[m] == n;
        let wk = wanted_tools_upto(lower, k);
        assert(wanted_tools_upto(lower, k + 1) == wk + tool_group(lower, k));
        assert((wk + g)[wk.len() + m] == n);
        lemma_wanted_grows(lower, k + 1, 10, n);
    }
    lemma_keep_wanted_contains(all, wanted_tools_spec(lower), i);
    assert(all.contains(all[i]));
}


/// What a lower-cased message calls for: the core tools, and the tools of
/// every group one of whose keywords occurs in it.
pub open spec fn called_for(lower: Seq<char>, n: Seq<char>) -> bool {
    always_offered().contains(n) || exists|k: int, w: Seq<char>| 0 <= k < 10 && #[trigger] group_keywords(k).contains(w)
        && contains_seq(lower, w) && #[trigger] group_tools(k).contains(n)
}

/// The names the first `upto` groups add are called for.
proof fn lemma_wanted_called_for(lower: Seq<char>, upto: int, n: Seq<char>)
    requires
        0 <= upto <= 10,
        wanted_tools_upto(lower, upto).contains(n),
    ensures
        called_for(lower, n),
    decreases upto,
{
    if upto == 0 {
        assert(wanted_tools_upto(lower, 0) == always_offered());
    } else {
        let k = upto - 1;
        let a = wanted_tools_upto(lower, k);
        let g = tool_group(lower, k);
        let j = choose|j: int| 0 <= j < (a + g).len() && (a + g)[j] == n;
        if j < a.len() {
            assert(a[j] == n);
            lemma_wanted_called_for(lower, k, n);
        } else {
            let kw = group_keywords(k);
            assert(tool_group(lower, k) == if contains_any_spec(lower, kw) { group_tools(k) } else { Seq::empty() });
            assert(contains_any_spec(lower, kw));
            let m = choose|m: int| 0 <= m < kw.len() && contains_seq(lower, kw[m]);
            assert(g[j - a.len()] == n);
            assert(kw.contains(kw[m]));
            assert(group_tools(k).contains(n));
        }
    }
}

/// The kept tools are among `ts` and wanted.
proof fn lemma_keep_wanted_sound(ts: Seq<ToolDef>, wanted: Seq<Seq<char>>)
    ensures
        forall|j: int| 0 <= j < keep_wanted(ts, wanted).len() ==> ts.contains(#[trigger] keep_wanted(ts, wanted)[j])
            && wanted.contains(keep_wanted(ts, wanted)[j].function.name@),
    decreases ts.len(),
{
    if ts.len() > 0 {
        let t = ts.drop_last();
        lemma_keep_wanted_sound(t, wanted);
        let r = keep_wanted(t, wanted);
        assert forall|j: int| 0 <= j < keep_wanted(ts, wanted).len() implies ts.contains(#[trigger] keep_wanted(ts, wanted)[j])
            && wanted.contains(keep_wanted(ts, wanted)[j].function.name@) by {
            let x = keep_wanted(ts, wanted)[j];
            if j < r.len() {
                assert(x == r[j]);
                let m = choose|m: int| 0 <= m < t.len() && t[m] == x;
                assert(ts[m] == t[m]);
            } else {
                assert(x == ts.last());
                assert(ts[ts.len() - 1] == x);
            }
        }
    }
}

/// Tool selection either keeps every tool or only available tools that the
/// message calls for; it keeps every tool when fewer than five called-for
/// tools are available.
pub proof fn lemma_selected_called_for(user_msg: Seq<char>, all: Seq<ToolDef>)
    ensures
        select_tools_spec(user_msg, all) == all || forall|j: int| 0 <= j < select_tools_spec(user_msg, all).len() ==> {
            let t = #[trigger] select_tools_spec(user_msg, all)[j];
            all.contains(t) && called_for(lowercase(user_msg), t.function.name@)
        },
        select_tools_spec(user_msg, all) != all ==> select_tools_spec(user_msg, all).len() >= 5,
{
    let lower = lowercase(user_msg);
    let w = wanted_tools_spec(lower);
    lemma_keep_wanted_sound(all, w);
    let kept = keep_wanted(all, w);
    assert forall|j: int| 0 <= j < kept.len() implies {
        let t = #[trigger] kept[j];
        all.contains(t) && called_for(lower, t.function.name@)
    } by {
        lemma_wanted_called_for(lower, 10, kept[j].function.name@);
    }
}


/// Greetings and acknowledgements.
pub open spec fn greetings() -> Seq<Seq<char>> {
    seq!["hi"@, "hello"@, "你好"@, "嗯"@, "ok"@, "好的"@, "谢谢"@, "继续"@, "再见"@]
}

/// A message of at most 500 characters (trimmed) with no marker of deep
/// reasoning or of a simple request needs no reasoning effort when it has
/// at most two characters or is a greeting (ASCII case aside), and medium
/// effort otherwise.
pub proof fn lemma_effort_unmarked(user_msg: Seq<char>)
    requires
        trim_spec(user_msg).len() <= 500,
        forall|d: Seq<char>| #[trigger] deep_markers().contains(d) ==> !contains_seq(lowercase(trim_spec(user_msg)), d),
        forall|d: Seq<char>| #[trigger] quick_markers().contains(d) ==> !contains_seq(lowercase(trim_spec(user_msg)), d),
    ensures
        trim_spec(user_msg).len() <= 2 ==> effort_spec(user_msg) is None,
        (exists|g: Seq<char>| #[trigger] greetings().contains(g) && eq_ignore_ascii_case_spec(trim_spec(user_msg), g))
            ==> effort_spec(user_msg) is None,
        trim_spec(user_msg).len() > 2
            && (forall|g: Seq<char>| #[trigger] greetings().contains(g) ==> !eq_ignore_ascii_case_spec(trim_spec(user_msg), g))
            ==> effort_spec(user_msg) == Some("medium"@),
{
    let msg = trim_spec(user_msg);
    let lower = lowercase(msg);
    assert(complex_markers() == deep_markers());
    assert(simple_markers() == quick_markers());
    assert(trivial_markers() == greetings());
    assert forall|k: int| 0 <= k < complex_markers().len() implies !contains_seq(lower, #[trigger] complex_markers()[k]) by {
        assert(deep_markers().contains(deep_markers()[k]));
    }
    assert forall|k: int| 0 <= k < simple_markers().len() implies !contains_seq(lower, #[trigger] simple_markers()[k]) by {
        assert(quick_markers().contains(quick_markers()[k]));
    }
    if exists|g: Seq<char>| #[trigger] greetings().contains(g) && eq_ignore_ascii_case_spec(msg, g) {
        let g = choose|g: Seq<char>| #[trigger] greetings().contains(g) && eq_ignore_ascii_case_spec(msg, g);
        let i = choose|i: int| 0 <= i < greetings().len() && greetings()[i] == g;
        assert(eq_ignore_ascii_case_spec(msg, trivial_markers()[i]));
    }
    if forall|g: Seq<char>| #[trigger] greetings().contains(g) ==> !eq_ignore_ascii_case_spec(msg, g) {
        assert forall|i: int| 0 <= i < trivial_markers().len() implies !eq_ignore_ascii_case_spec(msg, #[trigger] trivial_markers()[i]) by {
            assert(greetings().contains(greetings()[i]));
        }
    }
}

/// A message longer than 500 characters (trimmed) needs high effort.
pub proof fn lemma_effort_long(user_msg: Seq<char>)
    requires
        trim_spec(user_msg).len() > 500,
    ensures
        effort_spec(user_msg) == Some("high"@),
{
}

} // verus!
