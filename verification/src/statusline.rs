//! The line the `level` command prints for the shell statusline: eight tab-separated
//! fields (level, stage name, stage emoji, level-up flag, mood, hearts, streak days,
//! generation) and a newline.

use vstd::prelude::*;

use crate::care::{mood_word, Mood};
use crate::model::{stage_entry, stage_for, stage_index};
use crate::text::{decimal, push_decimal, push_str, string_from_chars};

verus! {

/// The statusline record for a pet at `level` (whose stage gives the name and emoji),
/// whether its level-up flash is showing, its mood, hearts, streak and generation.
pub open spec fn status_line_spec(
    level: u64,
    levelup: bool,
    mood: Mood,
    hearts: u32,
    streak_days: u32,
    generation: u32,
) -> Seq<char> {
    let st = stage_entry(stage_index(level));
    let tab = seq!['\t'];
    decimal(level as nat) + tab + st.name@ + tab + st.emoji@ + tab + (if levelup {
        seq!['1']
    } else {
        seq!['0']
    }) + tab + mood_word(mood)@ + tab + decimal(hearts as nat) + tab + decimal(
        streak_days as nat,
    ) + tab + decimal(generation as nat) + seq!['\n']
}

/// The statusline record (see `status_line_spec`).
pub fn status_line(
    level: u64,
    levelup: bool,
    mood: Mood,
    hearts: u32,
    streak_days: u32,
    generation: u32,
) -> (s: String)
    ensures
        s@ == status_line_spec(level, levelup, mood, hearts, streak_days, generation),
{
    let st = stage_for(level);
    let mut out: Vec<char> = Vec::new();
    push_decimal(&mut out, level);
    out.push('\t');
    push_str(&mut out, st.name);
    out.push('\t');
    push_str(&mut out, st.emoji);
    out.push('\t');
    out.push(if levelup {
        '1'
    } else {
        '0'
    });
    out.push('\t');
    push_str(&mut out, mood.as_str());
    out.push('\t');
    push_decimal(&mut out, hearts as u64);
    out.push('\t');
    push_decimal(&mut out, streak_days as u64);
    out.push('\t');
    push_decimal(&mut out, generation as u64);
    out.push('\n');
    proof {
        assert(out@ =~= status_line_spec(level, levelup, mood, hearts, streak_days, generation));
    }
    string_from_chars(out.as_slice())
}

/// Text that can stand as one field of a tab-separated line: no tab and no newline in it.
pub open spec fn plain_field(s: Seq<char>) -> bool {
    forall|i: int| 0 <= i < s.len() ==> #[trigger] s[i] != '\t' && s[i] != '\n'
}

/// Fields joined with a tab between each two.
pub open spec fn tab_join(fields: Seq<Seq<char>>) -> Seq<char>
    decreases fields.len(),
{
    if fields.len() == 0 {
        Seq::empty()
    } else if fields.len() == 1 {
        fields[0]
    } else {
        tab_join(fields.drop_last()) + seq!['\t'] + fields.last()
    }
}

/// The eight statusline fields, in order.
pub open spec fn status_fields(
    level: u64,
    levelup: bool,
    mood: Mood,
    hearts: u32,
    streak_days: u32,
    generation: u32,
) -> Seq<Seq<char>> {
    let st = stage_entry(stage_index(level));
    seq![
        decimal(level as nat),
        st.name@,
        st.emoji@,
        if levelup { seq!['1'] } else { seq!['0'] },
        mood_word(mood)@,
        decimal(hearts as nat),
        decimal(streak_days as nat),
        decimal(generation as nat),
    ]
}

proof fn lemma_decimal_plain(n: nat)
    ensures
        plain_field(decimal(n)),
    decreases n,
{
    if n >= 10 {
        lemma_decimal_plain(n / 10);
    }
}

proof fn lemma_stage_text_plain(i: usize)
    ensures
        plain_field(stage_entry(i).name@),
        plain_field(stage_entry(i).emoji@),
{
    reveal_strlit("Egg");
    reveal_strlit("🥚");
    reveal_strlit("Blob");
    reveal_strlit("👾");
    reveal_strlit("Sprout");
    reveal_strlit("🌱");
    reveal_strlit("Critter");
    reveal_strlit("🐱");
    reveal_strlit("Beast");
    reveal_strlit("🐉");
    reveal_strlit("Elder");
    reveal_strlit("👑");
}

proof fn lemma_mood_word_plain(m: Mood)
    ensures
        plain_field(mood_word(m)@),
{
    reveal_strlit("newborn");
    reveal_strlit("happy");
    reveal_strlit("content");
    reveal_strlit("hungry");
    reveal_strlit("grumpy");
    reveal_strlit("sick");
}

/// The statusline record is its eight fields joined by tabs and ended by a newline, and no
/// field holds a tab or a newline: cutting the line at tabs gives back exactly the level,
/// stage name, emoji, level-up flag, mood, hearts, streak and generation.
pub proof fn lemma_status_line_fields(
    level: u64,
    levelup: bool,
    mood: Mood,
    hearts: u32,
    streak_days: u32,
    generation: u32,
)
    ensures
        status_fields(level, levelup, mood, hearts, streak_days, generation).len() == 8,
        forall|k: int|
            0 <= k < 8 ==> plain_field(
                #[trigger] status_fields(level, levelup, mood, hearts, streak_days, generation)[k],
            ),
        status_line_spec(level, levelup, mood, hearts, streak_days, generation) == tab_join(
            status_fields(level, levelup, mood, hearts, streak_days, generation),
        ) + seq!['\n'],
{
    let f = status_fields(level, levelup, mood, hearts, streak_days, generation);
    lemma_decimal_plain(level as nat);
    lemma_decimal_plain(hearts as nat);
    lemma_decimal_plain(streak_days as nat);
    lemma_decimal_plain(generation as nat);
    lemma_stage_text_plain(stage_index(level));
    lemma_mood_word_plain(mood);
    assert(plain_field(seq!['1']));
    assert(plain_field(seq!['0']));
    assert forall|k: int| 0 <= k < 8 implies plain_field(#[trigger] f[k]) by {
        if k == 3 {
            assert(f[3] == (if levelup { seq!['1'] } else { seq!['0'] }));
        }
    }
    reveal_with_fuel(tab_join, 9);
    assert(f.drop_last().drop_last().drop_last().drop_last().drop_last().drop_last().drop_last()
        =~= seq![f[0]]);
    assert(status_line_spec(level, levelup, mood, hearts, streak_days, generation) =~= tab_join(f)
        + seq!['\n']);
}

} // verus!
