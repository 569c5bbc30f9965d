# bydleni

A dashboard of Czech housing affordability: how many months of net salary a
60 m² flat costs in each regional capital, with mortgage, rent and savings
comparisons, editorial "stories", forecasts and a personal scenario mode.
Data comes from FRED, the Czech National Bank, the Czech Statistical Office
and Sreality listings, is stored in SQLite and served with axum.

## Layout

- `src/` is the verified library (Verus). It holds the logic that works on
  text and integers, each function with a contract:
  - `text`, `numbers`: character-level string operations with their UTF-8
    byte offsets, and decimal integer parsing and printing;
  - `dates`: approximate day arithmetic on ISO dates, quarters and years,
    the year-earlier date and the selection of matching rows;
  - `cnb`, `czso`, `listings`: reading the CNB text files, the CZSO wage CSV
    and package metadata, and Sreality titles, queries and URLs;
  - `regions`, `stories`, `methodology`, `templates`, `format`, `forecast`,
    `queries`, `config`, `scenario`: region tables, story classification,
    methodology disclosures, display types, digit grouping, the shape of
    forecast charts, SQL text and configuration.
- `tests/` exercises the library on concrete values.
- `app/` is the program around it: the command line, HTTP fetchers, the
  database, the web server and templates, and the floating-point metrics
  (affordability, tax, mortgage, savings, forecasts, scenarios and story
  scoring).

The page templates (`templates/`) and database migrations (`migrations/`)
that the program loads at run time are not part of this tree.
