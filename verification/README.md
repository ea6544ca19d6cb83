# coral

The verified core of the Coral blacklist service for Hypixel Bed Wars: a
catalogue of player tags, the review threads in which members vote on new
tags, the permission rules of the Discord bot's tag and member commands, the
request rules and answers of the HTTP API, and the caches and periods behind
the interactive stats views.

Everything in `src/` is checked by Verus: each public function states in its
contract what it returns or changes, and the `lemma_*` proof functions state
the properties that span several functions, among them:

- a whole player card read back from its texts gives the player it was drawn
  from (`review_state::lemma_player_card_reads_back`), built from the read-back
  laws of its parts: the card header (`review_format::lemma_card_header_text`),
  the details block (`review_format::lemma_details_text_reads_back`), evidence
  lines (`review_format::lemma_evidence_line_roundtrip`) and the evidence
  summary (`review_messages::lemma_replay_summary_reads_back`); the one-text
  form of a card reads back too (`review_block::lemma_player_block_reads_back`);
- a replay command, a thread header and a confirmation id read back as written
  (`replay::lemma_parse_format_roundtrip`,
  `review_messages::lemma_header_names_submitter`,
  `review_messages::lemma_confirmation_roundtrip`);
- a review control's id gives the same submitter whichever reader is used,
  for any submitter number in range (`review_format::lemma_component_ids_agree`),
  and the controls of a review message name the player and submitter they act on
  (`review_layout::lemma_control_ids_read_back`);
- scores add up over concatenated tag lists and ignore order
  (`tags::lemma_calculate_score_laws`), and every dashed UUID also looks like
  a UUID (`replay::lemma_dashed_uuid_looks_like_uuid`);
- votes keep each player's tally consistent (`review::lemma_vote_keeps_invariant`),
  and a cached name is served until it goes stale
  (`name_cache::lemma_store_then_get`).

- `src/tags.rs`, `src/replay.rs`, `src/text.rs`: the tag catalogue, replay
  references, and the text operations everything else is stated in.
- `src/review*.rs`, `src/add_flow.rs`, `src/evidence_thread.rs`: submissions,
  voting and verdicts, the message format of review and evidence threads,
  the one-text form of a player card (`src/review_block.rs`), and the layout
  of a review message (`src/review_layout.rs`).
- `src/access.rs`, `src/tag_actions.rs`, `src/tag_change.rs`,
  `src/tag_view.rs`, `src/member_panel.rs`, `src/mod_log.rs`: the bot's
  permission rules, menus and posts.
- `src/api.rs`, `src/auth.rs`, `src/responses.rs`, `src/guild.rs`,
  `src/name_cache.rs`, `src/accounts.rs`, `src/admin_list.rs`: the API's
  checks, gates and answers.
- `src/session.rs`, `src/session_menu.rs`, `src/view_cache.rs`,
  `src/stats_card.rs`, `src/clock.rs`: stat periods and their resets, session
  views and the picker's options, and their caches.

`app/` is a small command-line front end that reads API data as JSON on
standard input and prints the library's answers as JSON. `tests/` holds the
tests, run against the compiled library.
