# baker

The logic of the Baker chat-mockup editor's settings page and dialogs, written
in Verus with its contracts proved.

- `src/text.rs`: Unicode whitespace and trimming, decimal numerals, reading an
  unsigned number as `str::parse::<u64>` does, the letter shown for a missing
  avatar.
- `src/locale.rs`: which locale a choice or a stored value stands for, and how
  the browser storage script's answers are read.
- `src/roster.rs`: operators and conversations; ticking ids in member lists,
  finding, adding (under a random UUID), renaming and deleting operators.
- `src/modals.rs`: what the dialogs decide: replay settings from their inputs,
  reactions, the insert-message dialog as a state machine, the new-chat and
  group-settings forms.
- `src/settings.rs`: settings sections, the chat background and its CSS, the
  operator editor, the repository link.
- `app/`: the Dioxus components that render all this, read uploaded files and
  talk to the browser's storage.
- `tests/`: the library's tests.
