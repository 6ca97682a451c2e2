# transat

Euro/dollar conversions on the exchange rates that the European Central Bank
publishes, as a library verified with Verus and a thin command line around it.

- `src/date.rs`: civil dates, times and spans as plain values; ISO printing and
  date arithmetic by `jiff`.
- `src/decimal.rs`: `rust_decimal` numbers as mantissa and scale; products,
  quotients and printing by `rust_decimal`.
- `src/money.rs`: currencies, amounts and rates.
- `src/ecb/models.rs`: the response of the ECB data API.
- `src/ecb/endpoints.rs`: requests, their URL (built with `url`), and the rate
  lookup in a response.
- `src/transat.rs`: the command's rules: the `-d` argument, the day asked about, the request, the
  rate chosen and the line printed.
- `app/`: argument parsing, the clock, the HTTP client and the JSON decoding.
