# stump_core

Verified core of a comic and e-book server, written in Verus.

- `src/opds_link.rs`: OPDS link types and relations, the attributes of the
  `link` elements of catalog feeds (plain and page-streaming links), and the
  events written for those elements through `xml-rs` (the bytes the writer
  makes of them are the writer's own).
- `src/library_scanner.rs`: the indexes of series and media that a library
  scan starts from, and the decision taken for each filesystem entry
  (known series, empty directory, new series, ignored file, known media,
  new media and the series it belongs to), with the events it reports.
- `src/precheck.rs`: the check run before a scan, as a state machine that
  asks its caller for database and filesystem work and for the parent
  directories of the series, and decides what comes next, including the
  rewriting of misplaced series paths.
- `src/series_map.rs`, `src/text.rs`, `src/model.rs`: a path-keyed series
  index that can be walked, the directory-holds-path test on characters,
  and the database records the scanner reads.
- `src/paths.rs`, `src/xml_writer.rs`: the std path operations and the
  `xml-rs` writer calls, behind trusted wrappers.
- `app/`: the asynchronous server side (database calls, directory walk,
  event delivery, task spawning) that drives the verified logic.
