use tokotchi::care::Mood;
use tokotchi::statusline::status_line;

#[test]
fn status_line_has_eight_tab_separated_fields() {
    let line = status_line(3, false, Mood::Happy, 4, 2, 1);
    assert_eq!(line, "3\tEgg\t🥚\t0\thappy\t4\t2\t1\n");
    let fields: Vec<&str> = line.trim_end_matches('\n').split('\t').collect();
    assert_eq!(fields.len(), 8);
}

#[test]
fn status_line_reports_stage_and_level_up() {
    assert_eq!(status_line(150, true, Mood::Sick, 0, 0, 12), "150\tElder\t👑\t1\tsick\t0\t0\t12\n");
    assert_eq!(status_line(30, false, Mood::Hungry, 5, 17, 2), "30\tCritter\t🐱\t0\thungry\t5\t17\t2\n");
}

#[test]
fn status_line_writes_large_numbers_in_full() {
    let line = status_line(u64::MAX, false, Mood::Content, u32::MAX, 10, 100);
    assert_eq!(line, format!("{}\tElder\t👑\t0\tcontent\t{}\t10\t100\n", u64::MAX, u32::MAX));
}
