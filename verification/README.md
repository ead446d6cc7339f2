# namelint

Checks file and directory names against configurable naming rules (NFC form, combining
marks, trimming, white space, POSIX-portable, URL-safe and ASCII-alphanumeric character
sets), and repairs names that hold null bytes or invalid UTF-8.

- `src/` is the library, written in Verus: every rule, the stem/extension split, parameter
  parsing, rule selection, failure reports, the name repair and the directory-entry filter
  carry contracts that Verus proves, together with the laws relating them.
- `app/` holds the command-line front ends (`namelint`, `namefix`): argument parsing with
  clap, directory walking and printing.
- `tests/` exercises the library on concrete names.
