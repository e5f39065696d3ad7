# lakehouse_engine

The planner of a lakehouse adapter. It turns a pushdown request of the database, a JSON document,
into the query that answers it: joins of lakehouse tables, and grouped aggregations that shards
compute in parts.

The library under `src/` is verified with Verus. Every executable function has a contract over
mathematical models of its inputs and its result.

| module | what it holds |
| --- | --- |
| `json`, `json_text`, `tree` | JSON documents, their text, and the column nodes of a tree |
| `text`, `types`, `ordering` | SQL identifiers and numbers, type names, sort keys and windows |
| `scan`, `aggregates` | scan specifications, aggregate plans and their merge formulas |
| `handed` | what a function that the planner is handed has to compute |
| `joins::planning` | recognising a join, sizing its sides, classifying its window |
| `joins::attribution` | which occurrence of a table a column belongs to |
| `joins::rendering` | splitting filters into conjuncts for legs and for the outer query |
| `joins::clauses`, `joins::sql_builders` | the outer clauses and the query that joins N scans |
| `joins::broadcast_join` | the plan that sends a small side to the shards of the large one |
| `joins::fallback` | the query around a scan of raw rows of one table |
| `joins::plan` | the choice between them |
| `grouped_agg` | detection, partial columns, the merge query, `HAVING` and `ORDER BY` |
| `laws` | what holds of several of these together |

The planner does not translate expressions, shard files or reach storage itself. It is handed
functions for that, and its contracts hold for whatever those functions compute. Three things are
taken on trust: `String::push`, `str::to_uppercase` and the escaping of a string by `serde_json`.

`app/` is the adapter around the library: it converts documents, resolves the tables of a join
concurrently, and answers with the error type of the database SDK.
