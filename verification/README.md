# Study RPG

A local-first study tracker shaped as an RPG growth loop:

```text
study session -> XP -> levels -> daily quests -> statistics
```

The rules of the loop are a Verus-verified library (`src/`); the desktop program around it
(`app/`) reads the clock, draws the egui window and keeps the game in SQLite.

## Layout

- `src/xp.rs`: the level curve and where a total of XP stands on it.
- `src/session.rs`, `src/player.rs`, `src/skill.rs`, `src/growth.rs`: sessions, the timer's
  minutes and XP, the player, skills and the growth events a session leaves.
- `src/quest.rs`: daily quests and their progress, counted on the quest's own day.
- `src/study_rpg.rs`: the core loop (`StudyRpg`): timer, recording a session, daily bonus,
  skill creation, snapshots.
- `src/skill_tree.rs`, `src/dashboard.rs`: the dashboard, with skills in tree order.
- `src/calendar.rs`, `src/statistics.rs`: calendar dates, periods, the seven-day trend and
  streaks.
- `src/desktop.rs`: the desktop controller: what the window asks of the game.
- `src/feedback.rs`, `src/companion.rs`, `src/codec.rs`: texts shown to the player, the
  companion window's placement, and the words the store saves.
- `src/laws.rs`: properties that span several calls, proved.
- `app/`: the egui program, the SQLite store, and the floating-point sizing of the companion
  window.

## Checking

Every function in `src/` carries a `requires`/`ensures` contract that Verus proves; the tests in
`tests/` run the library on the scenarios of the design.
