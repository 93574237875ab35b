# bangumi_ana_report

Statistics over a Bangumi user's collection, and the plain-text summary and
HTML report built from them.

- `src/` is the library, verified with Verus: the collection model, the
  analysis (distributions, ratings, tags, timeline, completion, score
  comparisons, ranking bands, popularity), the summary text, the Markdown
  subset rendered into the report, the template filling, the API addresses
  and paging decisions, and the pieces of the chat request. `src/laws.rs`
  states properties that hold across these functions.
- `app/` is the command-line program around it: arguments, environment,
  HTTP requests, JSON decoding, the fractional figures (averages and rates
  rendered as text), and file output. The report template is read at run
  time from `--template` (default `template.html`).
- `tests/` runs the library on concrete collections.
