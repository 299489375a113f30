# csv_chart

Turns the CSV recordings of a measuring tool (a `"Time (s)"` column followed by
one column per recorded attribute) into HTML pages that plot every attribute
over time with Chart.js.

- `src/` is the verified library:
  - `text`: splitting, prefix tests, decimal numbers, integer and boolean
    reading, and the clean-up of typed answers;
  - `file_parser`: the header's attribute names, the format check and the
    cells of a recording;
  - `file_questionary`: colours, kinds of chart, options, the file-wide
    sampling settings, and the questionary as a state machine that is
    driven from outside;
  - `html_file_parser`: the page itself.
- `app/` is the program: it reads the files, talks to the terminal, reads
  and shows real numbers, evaluates the equations with `meval`, and writes
  the pages.
